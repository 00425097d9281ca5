//! The images that a run is asked to look at.

use std::path::PathBuf;
use vstd::prelude::*;
use vstd::string::*;

verus! {

/// `std::path::PathBuf`: a path, carried through as it is.
#[verifier::external_type_specification]
#[verifier::external_body]
pub struct ExPathBuf(PathBuf);

/// One image, with the place where it was taken if that is known.
#[derive(Debug)]
pub struct Instance {
    file_path: PathBuf,
    country: Option<String>,
    admin1_region: Option<String>,
}

/// The mathematical content of an `Instance`.
pub struct InstanceView {
    pub file_path: PathBuf,
    pub country: Option<Seq<char>>,
    pub admin1_region: Option<Seq<char>>,
}

impl View for Instance {
    type V = InstanceView;

    closed spec fn view(&self) -> InstanceView {
        InstanceView {
            file_path: self.file_path,
            country: self.country.deep_view(),
            admin1_region: self.admin1_region.deep_view(),
        }
    }
}

impl DeepView for Instance {
    type V = InstanceView;

    open spec fn deep_view(&self) -> InstanceView {
        self@
    }
}

impl Instance {
    /// The path of the image.
    pub fn file_path(&self) -> (r: &PathBuf)
        ensures
            *r == self@.file_path,
    {
        &self.file_path
    }

    /// The country in which the image was taken, as an ISO 3166-1 alpha-3
    /// code.
    pub fn country(&self) -> (r: Option<&str>)
        ensures
            r.deep_view() == self@.country,
    {
        match &self.country {
            Some(country) => Some(country.as_str()),
            None => None,
        }
    }

    /// The first-level administrative division in which the image was taken.
    pub fn admin1_region(&self) -> (r: Option<&str>)
        ensures
            r.deep_view() == self@.admin1_region,
    {
        match &self.admin1_region {
            Some(region) => Some(region.as_str()),
            None => None,
        }
    }

    /// An image with its place.
    pub fn new(file_path: PathBuf, country: Option<String>, admin1_region: Option<String>) -> (r:
        Self)
        ensures
            r@ == (InstanceView {
                file_path,
                country: country.deep_view(),
                admin1_region: admin1_region.deep_view(),
            }),
    {
        Instance { file_path, country, admin1_region }
    }

    /// An image of which only the path is known.
    pub fn from_path_buf(file_path: PathBuf) -> (r: Self)
        ensures
            r@ == (InstanceView { file_path, country: None, admin1_region: None }),
    {
        Instance { file_path, country: None, admin1_region: None }
    }
}

/// The images of one run.
#[derive(Debug)]
pub struct Instances {
    instances: Vec<Instance>,
}

impl View for Instances {
    type V = Seq<InstanceView>;

    closed spec fn view(&self) -> Seq<InstanceView> {
        self.instances.deep_view()
    }
}

impl Instances {
    /// The images of a run, in the order given.
    pub fn new(instances: Vec<Instance>) -> (r: Self)
        ensures
            r@ == instances.deep_view(),
    {
        Instances { instances }
    }

    /// The images, in the order in which they were listed.
    pub fn instances(&self) -> (r: &[Instance])
        ensures
            r.deep_view() == self@,
    {
        let r = self.instances.as_slice();
        assert(r.deep_view() =~= self.instances.deep_view());
        r
    }
}

} // verus!
