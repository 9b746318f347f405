//! Packages from the remote registry listing, and the completion filter
//! over them. Fetching the listing is the caller's business; the library
//! only filters what came back.

use vstd::prelude::*;

use crate::text::{has_sub, str_contains};

verus! {

/// One entry of the remote package registry.
#[derive(Debug, Clone)]
pub struct Package {
    pub name: String,
    pub description: String,
    pub homepage: String,
}

/// Specification view of a [`Package`].
pub ghost struct PackageV {
    pub name: Seq<char>,
    pub description: Seq<char>,
    pub homepage: Seq<char>,
}

impl View for Package {
    type V = PackageV;

    open spec fn view(&self) -> PackageV {
        PackageV { name: self.name@, description: self.description@, homepage: self.homepage@ }
    }
}

impl DeepView for Package {
    type V = PackageV;

    open spec fn deep_view(&self) -> PackageV {
        self.view()
    }
}

/// The packages whose name the line does not already carry, in order.
pub open spec fn spec_filter_packages(line: Seq<char>, s: Seq<PackageV>) -> Seq<PackageV>
    decreases s.len(),
{
    if s.len() == 0 {
        Seq::empty()
    } else {
        let rest = spec_filter_packages(line, s.drop_last());
        if !has_sub(line, s.last().name) {
            rest.push(s.last())
        } else {
            rest
        }
    }
}

/// Keeps the packages the line does not already name, for completion.
pub fn filter_packages(line: &str, pkgs: &Vec<Package>) -> (r: Vec<Package>)
    ensures
        r.deep_view() == spec_filter_packages(line@, pkgs.deep_view()),
{
    let ghost all = pkgs.deep_view();
    let mut out: Vec<Package> = Vec::new();
    let mut i: usize = 0;
    while i < pkgs.len()
        invariant
            all == pkgs.deep_view(),
            0 <= i <= pkgs.len(),
            out.deep_view() =~= spec_filter_packages(line@, all.take(i as int)),
        decreases pkgs.len() - i,
    {
        proof {
            assert(all.take(i + 1).drop_last() =~= all.take(i as int));
        }
        if !str_contains(line, pkgs[i].name.as_str()) {
            let ghost dv0 = out.deep_view();
            let p = &pkgs[i];
            out.push(
                Package {
                    name: p.name.clone(),
                    description: p.description.clone(),
                    homepage: p.homepage.clone(),
                },
            );
            proof {
                assert(out.deep_view() =~= dv0.push(all[i as int]));
            }
        }
        i += 1;
    }
    proof {
        assert(all.take(pkgs.len() as int) =~= all);
    }
    out
}

} // verus!
