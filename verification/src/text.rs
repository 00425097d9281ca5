//! Text primitives: splitting on a separator, joining, comparing and
//! rendering numbers, each proved against a mathematical definition over
//! sequences of characters.

use vstd::prelude::*;
use vstd::string::*;
use vstd::utf8::*;

verus! {

/// The pieces of `s` between occurrences of `sep`. There is always at least one
/// piece; `n` separators give `n + 1` pieces, some of which may be empty.
pub open spec fn split(s: Seq<char>, sep: char) -> Seq<Seq<char>>
    decreases s.len(),
{
    if s.len() == 0 {
        seq![Seq::<char>::empty()]
    } else {
        let init = split(s.drop_last(), sep);
        if s.last() == sep {
            init.push(Seq::<char>::empty())
        } else {
            init.update(init.len() - 1, init.last().push(s.last()))
        }
    }
}

/// The pieces of `parts` written one after the other with `sep` between
/// neighbours.
pub open spec fn join(parts: Seq<Seq<char>>, sep: Seq<char>) -> Seq<char>
    decreases parts.len(),
{
    if parts.len() == 0 {
        Seq::<char>::empty()
    } else if parts.len() == 1 {
        parts[0]
    } else {
        join(parts.drop_last(), sep) + sep + parts.last()
    }
}

/// The character that stands for the digit `d`.
pub open spec fn digit(d: nat) -> char {
    if d == 0 {
        '0'
    } else if d == 1 {
        '1'
    } else if d == 2 {
        '2'
    } else if d == 3 {
        '3'
    } else if d == 4 {
        '4'
    } else if d == 5 {
        '5'
    } else if d == 6 {
        '6'
    } else if d == 7 {
        '7'
    } else if d == 8 {
        '8'
    } else {
        '9'
    }
}

/// The decimal notation of `n`, without leading zeros.
pub open spec fn decimal(n: nat) -> Seq<char>
    decreases n,
{
    if n < 10 {
        seq![digit(n)]
    } else {
        decimal(n / 10).push(digit(n % 10))
    }
}

/// A split always yields at least one piece.
pub proof fn lemma_split_len(s: Seq<char>, sep: char)
    ensures
        split(s, sep).len() >= 1,
    decreases s.len(),
{
    if s.len() > 0 {
        lemma_split_len(s.drop_last(), sep);
    }
}

/// Joining the pieces of a split with the separator gives the text back.
pub proof fn lemma_join_split(s: Seq<char>, sep: char)
    ensures
        join(split(s, sep), seq![sep]) == s,
    decreases s.len(),
{
    let parts = split(s, sep);
    if s.len() == 0 {
    } else {
        let t = s.drop_last();
        let init = split(t, sep);
        lemma_split_len(t, sep);
        lemma_join_split(t, sep);
        assert(s == t.push(s.last()));
        if s.last() == sep {
            assert(parts.drop_last() == init);
            assert(join(parts, seq![sep]) == t + seq![sep] + Seq::<char>::empty());
        } else if init.len() == 1 {
            assert(parts[0] == init[0].push(s.last()));
        } else {
            assert(parts.drop_last() == init.drop_last());
            assert(join(parts, seq![sep]) == join(init.drop_last(), seq![sep]) + seq![sep]
                + init.last().push(s.last()));
            assert(join(init, seq![sep]) == join(init.drop_last(), seq![sep]) + seq![sep]
                + init.last());
        }
    }
}

/// No piece of a split holds the separator.
pub proof fn lemma_split_pieces(s: Seq<char>, sep: char)
    ensures
        forall|k: int| 0 <= k < split(s, sep).len() ==> !(#[trigger] split(s, sep)[k]).contains(sep),
    decreases s.len(),
{
    if s.len() > 0 {
        let init = split(s.drop_last(), sep);
        lemma_split_len(s.drop_last(), sep);
        lemma_split_pieces(s.drop_last(), sep);
        let parts = split(s, sep);
        assert forall|k: int| 0 <= k < parts.len() implies !(#[trigger] parts[k]).contains(sep) by {
            if s.last() == sep {
                if k < init.len() {
                    assert(parts[k] == init[k]);
                }
            } else if k == init.len() - 1 {
                let grown = init.last().push(s.last());
                assert(!init[k].contains(sep));
                if grown.contains(sep) {
                    let at = choose|at: int| 0 <= at < grown.len() && grown[at] == sep;
                    if at < init.last().len() {
                        assert(init.last()[at] == sep);
                    }
                }
            } else {
                assert(parts[k] == init[k]);
            }
        }
    }
}

/// A text without the separator is its own single piece.
pub proof fn lemma_split_one(s: Seq<char>, sep: char)
    requires
        !s.contains(sep),
    ensures
        split(s, sep) == seq![s],
    decreases s.len(),
{
    if s.len() > 0 {
        let init = s.drop_last();
        assert(s.last() == s[s.len() - 1]);
        if init.contains(sep) {
            let at = choose|at: int| 0 <= at < init.len() && init[at] == sep;
            assert(s[at] == sep);
        }
        lemma_split_one(init, sep);
        assert(init.push(s.last()) == s);
        assert(split(s, sep) =~= seq![s]);
    } else {
        assert(s == Seq::<char>::empty());
    }
}

/// After a separator, a text without the separator is one more piece.
pub proof fn lemma_split_append(a: Seq<char>, b: Seq<char>, sep: char)
    requires
        !b.contains(sep),
    ensures
        split(a + seq![sep] + b, sep) == split(a, sep).push(b),
    decreases b.len(),
{
    let whole = a + seq![sep] + b;
    if b.len() == 0 {
        assert(whole.drop_last() == a);
        assert(b == Seq::<char>::empty());
    } else {
        let init = b.drop_last();
        assert(b.last() == b[b.len() - 1]);
        if init.contains(sep) {
            let at = choose|at: int| 0 <= at < init.len() && init[at] == sep;
            assert(b[at] == sep);
        }
        lemma_split_append(a, init, sep);
        assert(whole.drop_last() == a + seq![sep] + init);
        assert(whole.last() == b.last());
        assert(init.push(b.last()) == b);
        assert(split(whole, sep) =~= split(a, sep).push(b));
    }
}

/// Splitting what was joined gives the pieces back, as long as there is a
/// piece and no piece holds the separator.
pub proof fn lemma_split_join(parts: Seq<Seq<char>>, sep: char)
    requires
        parts.len() >= 1,
        forall|k: int| 0 <= k < parts.len() ==> !(#[trigger] parts[k]).contains(sep),
    ensures
        split(join(parts, seq![sep]), sep) == parts,
    decreases parts.len(),
{
    if parts.len() == 1 {
        lemma_split_one(parts[0], sep);
        assert(parts =~= seq![parts[0]]);
    } else {
        let init = parts.drop_last();
        assert forall|k: int| 0 <= k < init.len() implies !(#[trigger] init[k]).contains(sep) by {
            assert(init[k] == parts[k]);
        }
        lemma_split_join(init, sep);
        lemma_split_append(join(init, seq![sep]), parts.last(), sep);
        assert(init.push(parts.last()) == parts);
    }
}

/// Whether two texts hold the same characters.
pub fn text_eq(a: &str, b: &str) -> (r: bool)
    ensures
        r == (a@ == b@),
{
    let x = a.as_bytes();
    let y = b.as_bytes();
    proof {
        encode_utf8_decode_utf8(a@);
        encode_utf8_decode_utf8(b@);
    }
    if x.len() != y.len() {
        return false;
    }
    let mut i: usize = 0;
    while i < x.len()
        invariant
            i <= x.len(),
            x.len() == y.len(),
            x@ == encode_utf8(a@),
            y@ == encode_utf8(b@),
            forall|j: int| 0 <= j < i ==> x@[j] == y@[j],
        decreases x.len() - i,
    {
        if x[i] != y[i] {
            return false;
        }
        i = i + 1;
    }
    assert(x@ =~= y@);
    true
}

/// Splits `s` at every `sep`, as `split` defines it.
pub fn split_text(s: &str, sep: char) -> (parts: Vec<String>)
    ensures
        parts.deep_view() == split(s@, sep),
{
    let len = s.unicode_len();
    let mut parts: Vec<String> = Vec::new();
    let mut start: usize = 0;
    let mut pos: usize = 0;
    proof {
        assert(s@.take(0) == Seq::<char>::empty());
        assert(parts.deep_view() == Seq::<Seq<char>>::empty());
        assert(s@.subrange(0, 0) == Seq::<char>::empty());
        assert(split(s@.take(0), sep) == parts.deep_view().push(s@.subrange(0, 0)));
    }
    for c in it: s.chars()
        invariant
            it.seq() == s@,
            pos == it.index(),
            start <= pos,
            len == s@.len(),
            split(s@.take(pos as int), sep) == parts.deep_view().push(
                s@.subrange(start as int, pos as int),
            ),
    {
        proof {
            let before = s@.take(pos as int);
            let after = s@.take(pos as int + 1);
            assert(after.drop_last() == before);
            assert(after.last() == c);
            assert(s@.subrange(start as int, pos as int + 1) == s@.subrange(
                start as int,
                pos as int,
            ).push(c));
        }
        if c == sep {
            let piece = s.substring_char(start, pos).to_owned();
            let ghost old_parts = parts.deep_view();
            parts.push(piece);
            start = pos + 1;
            proof {
                assert(parts.deep_view() == old_parts.push(piece@));
                assert(s@.subrange(start as int, pos as int + 1) == Seq::<char>::empty());
            }
        }
        pos = pos + 1;
    }
    proof {
        assert(s@.take(pos as int) == s@);
    }
    let piece = s.substring_char(start, pos).to_owned();
    let ghost old_parts = parts.deep_view();
    parts.push(piece);
    assert(parts.deep_view() == old_parts.push(piece@));
    parts
}

/// Writes the pieces `parts[from..to]` one after the other with `sep` between
/// neighbours.
pub fn join_text(parts: &Vec<String>, from: usize, to: usize, sep: &str) -> (r: String)
    requires
        from <= to <= parts.len(),
    ensures
        r@ == join(parts.deep_view().subrange(from as int, to as int), sep@),
{
    let mut r = String::new();
    let mut i: usize = from;
    let ghost pieces = parts.deep_view().subrange(from as int, to as int);
    while i < to
        invariant
            from <= i <= to,
            to <= parts.len(),
            pieces == parts.deep_view().subrange(from as int, to as int),
            r@ == join(pieces.take(i - from), sep@),
        decreases to - i,
    {
        proof {
            let upto = pieces.take(i - from + 1);
            assert(upto.drop_last() == pieces.take(i - from));
            assert(upto.last() == parts[i as int]@);
        }
        if i > from {
            r.append(sep);
        }
        r.append(parts[i].as_str());
        i = i + 1;
    }
    assert(pieces.take(to - from) == pieces);
    r
}

/// The text of a single decimal digit.
fn digit_text(d: usize) -> (r: &'static str)
    requires
        d < 10,
    ensures
        r@ == seq![digit(d as nat)],
{
    proof {
        reveal_strlit("0");
        reveal_strlit("1");
        reveal_strlit("2");
        reveal_strlit("3");
        reveal_strlit("4");
        reveal_strlit("5");
        reveal_strlit("6");
        reveal_strlit("7");
        reveal_strlit("8");
        reveal_strlit("9");
    }
    let r = match d {
        0 => "0",
        1 => "1",
        2 => "2",
        3 => "3",
        4 => "4",
        5 => "5",
        6 => "6",
        7 => "7",
        8 => "8",
        _ => "9",
    };
    assert(r@ =~= seq![digit(d as nat)]);
    r
}

/// Renders `n` in decimal notation.
pub fn decimal_text(n: usize) -> (r: String)
    ensures
        r@ == decimal(n as nat),
    decreases n,
{
    if n < 10 {
        digit_text(n).to_owned()
    } else {
        let mut r = decimal_text(n / 10);
        r.append(digit_text(n % 10));
        assert(r@ =~= decimal(n as nat));
        r
    }
}

/// Whether a list of texts holds a text.
pub fn list_contains(list: &Vec<String>, item: &str) -> (r: bool)
    ensures
        r == list.deep_view().contains(item@),
{
    let mut i: usize = 0;
    while i < list.len()
        invariant
            i <= list.len(),
            forall|j: int| 0 <= j < i ==> list.deep_view()[j] != item@,
        decreases list.len() - i,
    {
        if text_eq(list[i].as_str(), item) {
            assert(list.deep_view()[i as int] == item@);
            return true;
        }
        i = i + 1;
    }
    false
}

/// The texts of a list, each once, in the order in which they first occur.
pub open spec fn distinct(list: Seq<Seq<char>>) -> Seq<Seq<char>>
    decreases list.len(),
{
    if list.len() == 0 {
        Seq::empty()
    } else {
        let init = distinct(list.drop_last());
        if init.contains(list.last()) {
            init
        } else {
            init.push(list.last())
        }
    }
}

/// `distinct` holds what the list holds, nothing twice and nothing else, and
/// is empty only for the empty list.
pub proof fn lemma_distinct(list: Seq<Seq<char>>)
    ensures
        distinct(list).no_duplicates(),
        forall|text: Seq<char>|
            #![trigger distinct(list).contains(text)]
            #![trigger list.contains(text)]
            distinct(list).contains(text) <==> list.contains(text),
        distinct(list).len() <= list.len(),
        list.len() > 0 ==> distinct(list).len() > 0,
    decreases list.len(),
{
    if list.len() > 0 {
        let init = list.drop_last();
        let last = list.last();
        let before = distinct(init);
        let after = distinct(list);
        lemma_distinct(init);
        assert forall|text: Seq<char>| list.contains(text) implies after.contains(text) by {
            let at = choose|at: int| 0 <= at < list.len() && list[at] == text;
            if at < init.len() {
                assert(init[at] == text);
                assert(init.contains(text));
                assert(before.contains(text));
                let found = choose|found: int| 0 <= found < before.len() && before[found] == text;
                assert(after[found] == text);
            } else if before.contains(last) {
                let found = choose|found: int| 0 <= found < before.len() && before[found] == last;
                assert(after[found] == text);
            } else {
                assert(after[before.len() as int] == last);
            }
        }
        assert forall|text: Seq<char>| after.contains(text) implies list.contains(text) by {
            let found = choose|found: int| 0 <= found < after.len() && after[found] == text;
            if found < before.len() {
                assert(before[found] == text);
                assert(before.contains(text));
                assert(init.contains(text));
                let at = choose|at: int| 0 <= at < init.len() && init[at] == text;
                assert(list[at] == text);
            } else {
                assert(text == last);
                assert(list[list.len() - 1] == last);
            }
        }
        if !before.contains(last) {
            assert forall|i: int, j: int|
                0 <= i < after.len() && 0 <= j < after.len() && i != j implies after[i]
                != after[j] by {
                if i < before.len() && j < before.len() {
                    assert(before[i] != before[j]);
                } else if i < before.len() {
                    assert(before[i] == after[i]);
                } else {
                    assert(before[j] == after[j]);
                }
            }
            assert(after[before.len() as int] == last);
        } else {
            assert(list[list.len() - 1] == last);
            assert(list.contains(last));
        }
    }
}

/// A list that holds nothing twice is its own `distinct`.
pub proof fn lemma_distinct_same(list: Seq<Seq<char>>)
    requires
        list.no_duplicates(),
    ensures
        distinct(list) == list,
    decreases list.len(),
{
    if list.len() > 0 {
        let init = list.drop_last();
        assert forall|i: int, j: int|
            0 <= i < init.len() && 0 <= j < init.len() && i != j implies init[i] != init[j] by {
            assert(init[i] == list[i] && init[j] == list[j]);
        }
        lemma_distinct_same(init);
        if init.contains(list.last()) {
            let at = choose|at: int| 0 <= at < init.len() && init[at] == list.last();
            assert(list[at] == list[list.len() - 1]);
        }
        assert(init.push(list.last()) == list);
    }
}

/// The texts of a list, each once, in the order in which they first occur.
pub fn distinct_texts(list: &Vec<String>) -> (r: Vec<String>)
    ensures
        r.deep_view() == distinct(list.deep_view()),
{
    let mut r: Vec<String> = Vec::new();
    let mut i: usize = 0;
    let ghost all = list.deep_view();
    assert(all.take(0) == Seq::<Seq<char>>::empty());
    assert(r.deep_view() == Seq::<Seq<char>>::empty());
    while i < list.len()
        invariant
            i <= list.len(),
            all == list.deep_view(),
            r.deep_view() == distinct(all.take(i as int)),
        decreases list.len() - i,
    {
        proof {
            let upto = all.take(i as int + 1);
            assert(upto.drop_last() == all.take(i as int));
            assert(upto.last() == list[i as int]@);
        }
        if !list_contains(&r, list[i].as_str()) {
            let ghost before = r.deep_view();
            let text = list[i].clone();
            r.push(text);
            assert(r.deep_view() == before.push(text@));
        }
        i = i + 1;
    }
    assert(all.take(i as int) == all);
    r
}

} // verus!
