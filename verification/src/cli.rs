//! Scan options, as the surrounding command line hands them to the
//! engine, and the ecosystem exclusion filter.

use vstd::prelude::*;

use crate::models::Ecosystem;

verus! {

/// The report format to produce.
#[derive(Debug, Clone, Copy, PartialEq, Eq, Structural)]
pub enum ReportFormat {
    /// Colored terminal tables.
    Terminal,
    /// Machine-readable JSON.
    Json,
    /// A multi-page PDF document.
    Pdf,
}

/// An ecosystem named on the command line.
#[derive(Debug, Clone, Copy, PartialEq, Eq, Structural)]
pub enum EcosystemArg {
    /// Rust / Cargo.
    Rust,
    /// Python / pip.
    Python,
    /// Java / Maven / Gradle.
    Java,
    /// Node / npm / Yarn.
    Node,
    /// .NET / NuGet.
    Dotnet,
}

/// The ecosystem an argument stands for.
pub open spec fn spec_arg_ecosystem(a: EcosystemArg) -> Ecosystem {
    match a {
        EcosystemArg::Rust => Ecosystem::Rust,
        EcosystemArg::Python => Ecosystem::Python,
        EcosystemArg::Java => Ecosystem::Java,
        EcosystemArg::Node => Ecosystem::Node,
        EcosystemArg::Dotnet => Ecosystem::DotNet,
    }
}

impl EcosystemArg {
    /// Convert to the corresponding [`Ecosystem`].
    pub fn to_ecosystem(&self) -> (e: Ecosystem)
        ensures
            e == spec_arg_ecosystem(*self),
    {
        match self {
            EcosystemArg::Rust => Ecosystem::Rust,
            EcosystemArg::Python => Ecosystem::Python,
            EcosystemArg::Java => Ecosystem::Java,
            EcosystemArg::Node => Ecosystem::Node,
            EcosystemArg::Dotnet => Ecosystem::DotNet,
        }
    }
}

/// Scan options.
pub struct Cli {
    /// Project path to scan.
    pub path: String,
    /// Fetch license data from package registries.
    pub online: bool,
    /// Policy config file override.
    pub config: Option<String>,
    /// Report format.
    pub report: ReportFormat,
    /// PDF output path, when PDF output was requested.
    pub pdf: Option<String>,
    /// Ecosystems excluded from scanning.
    pub exclude_lang: Vec<EcosystemArg>,
    /// Scan the tree recursively for sub-projects.
    pub recursive: bool,
    /// Show all dependencies, not just warnings and errors.
    pub verbose: bool,
    /// Only print the summary line.
    pub quiet: bool,
}

/// The ecosystems named by the exclusion arguments.
pub fn excluded_ecosystems(args: &Vec<EcosystemArg>) -> (r: Vec<Ecosystem>)
    ensures
        r@.len() == args@.len(),
        forall|i: int| 0 <= i < args@.len() ==> r@[i] == spec_arg_ecosystem(#[trigger] args@[i]),
{
    let mut r: Vec<Ecosystem> = Vec::new();
    let mut i: usize = 0;
    while i < args.len()
        invariant
            i <= args@.len(),
            r@.len() == i,
            forall|j: int| 0 <= j < i ==> r@[j] == spec_arg_ecosystem(#[trigger] args@[j]),
        decreases args@.len() - i,
    {
        r.push(args[i].to_ecosystem());
        i = i + 1;
    }
    r
}

/// The detected ecosystems with the excluded ones removed, in order.
pub fn filter_excluded(detected: Vec<Ecosystem>, excluded: &Vec<Ecosystem>) -> (r: Vec<Ecosystem>)
    ensures
        r@ == detected@.filter(|e: Ecosystem| !excluded@.contains(e)),
{
    let ghost all = detected@;
    let mut rest = detected;
    let mut r: Vec<Ecosystem> = Vec::new();
    let mut i: usize = 0;
    let total: usize = rest.len();
    proof {
        assert(all.take(0) =~= Seq::<Ecosystem>::empty());
        reveal_with_fuel(Seq::<Ecosystem>::filter, 1);
        assert(all.take(0).filter(|e: Ecosystem| !excluded@.contains(e)) =~= Seq::<
            Ecosystem,
        >::empty());
        assert(all.skip(0) =~= all);
    }
    while rest.len() > 0
        invariant
            all.len() == total,
            i + rest@.len() == all.len(),
            rest@ == all.skip(i as int),
            r@ == all.take(i as int).filter(|e: Ecosystem| !excluded@.contains(e)),
        decreases rest@.len(),
    {
        proof {
            assert(all.skip(i as int)[0] == all[i as int]);
            assert(all.skip(i as int).drop_first() =~= all.skip(i + 1));
        }
        let e = rest.remove(0);
        let mut found: bool = false;
        let mut k: usize = 0;
        while k < excluded.len()
            invariant
                k <= excluded@.len(),
                found == exists|j: int| 0 <= j < k && excluded@[j] == e,
            decreases excluded@.len() - k,
        {
            if excluded[k] == e {
                found = true;
            }
            k = k + 1;
        }
        proof {
            reveal_with_fuel(Seq::<Ecosystem>::filter, 2);
            assert(all.take(i + 1).drop_last() =~= all.take(i as int));
            assert(all.take(i + 1).last() == all[i as int]);
            if found {
                assert(excluded@.contains(e));
            } else {
                if excluded@.contains(e) {
                    let j = choose|j: int| 0 <= j < excluded@.len() && excluded@[j] == e;
                    assert(false);
                }
            }
        }
        if !found {
            r.push(e);
        }
        i = i + 1;
    }
    proof {
        assert(all.take(all.len() as int) =~= all);
    }
    r
}

} // verus!
