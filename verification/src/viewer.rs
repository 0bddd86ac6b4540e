//! Rules of the desktop viewer: which files it offers, under which name it
//! lists a container, and how much of a log it fetches.

use vstd::prelude::*;
use vstd::string::*;
use crate::summary::ContainerSummary;
use crate::text::{joined, str_eq};

verus! {

/// The number of recent lines that the viewer fetches with each listing.
pub const LISTING_LOG_TAIL: u32 = 1000;

/// The number of recent lines that the viewer fetches on request.
pub const REQUESTED_LOG_TAIL: u32 = 100;

/// The milliseconds between two listings.
pub const LISTING_INTERVAL_MILLIS: u64 = 50;

/// The name of a build file.
pub open spec fn dockerfile_name() -> Seq<char> {
    "Dockerfile"@
}

/// Whether a file of this name is a build file.
pub fn is_dockerfile_name(name: &str) -> (r: bool)
    ensures
        r == (name@ == dockerfile_name()),
{
    str_eq(name, "Dockerfile")
}

/// Whether a file of this name is a compose file: it is named
/// `docker_compose.yaml` or `docker-compose.yaml`.
pub fn is_compose_file_name(name: &str) -> (r: bool)
    ensures
        r == (name@ == "docker_compose.yaml"@ || name@ == "docker-compose.yaml"@),
{
    str_eq(name, "docker_compose.yaml") || str_eq(name, "docker-compose.yaml")
}

/// The characters of each name.
pub open spec fn names_view(names: Seq<String>) -> Seq<Seq<char>> {
    Seq::new(names.len(), |i: int| names[i]@)
}

impl ContainerSummary {
    /// The name under which the viewer lists a container: all its names,
    /// separated by a comma and a space, or a placeholder where none are
    /// reported.
    pub open spec fn listing_name(&self) -> Seq<char> {
        match self.names {
            Some(names) => joined(names_view(names@), ", "@),
            None => "Unnamed Container"@,
        }
    }
}

/// The name under which the viewer lists a container.
pub fn listing_name(c: &ContainerSummary) -> (r: String)
    ensures
        r@ == c.listing_name(),
{
    match &c.names {
        Some(names) => {
            let mut out = String::new();
            let mut i: usize = 0;
            assert(names_view(names@).take(0) =~= Seq::<Seq<char>>::empty());
            while i < names.len()
                invariant
                    i <= names@.len(),
                    out@ == joined(names_view(names@).take(i as int), ", "@),
                decreases names@.len() - i,
            {
                let ghost done = names_view(names@).take(i as int);
                let ghost next = names_view(names@).take(i + 1);
                if i > 0 {
                    out.append(", ");
                }
                out.append(names[i].as_str());
                proof {
                    assert(next.drop_last() =~= done);
                    assert(next.last() == names@[i as int]@);
                    if i == 0 {
                        assert(out@ =~= next[0]);
                    } else {
                        assert(out@ =~= joined(done, ", "@) + ", "@ + next.last());
                    }
                }
                i = i + 1;
            }
            assert(names_view(names@).take(names@.len() as int) =~= names_view(names@));
            out
        },
        None => "Unnamed Container".to_owned(),
    }
}

} // verus!
