//! The test-suite manifest: which embedded guest spec files the runner
//! should require.
//!
//! A manifest groups suites by family (for example `core` or `library`);
//! each suite either runs everything, everything but a skip list, nothing,
//! or a named set. A spec file's path decides its fate: the first
//! component names the family, the second the suite, the third the spec
//! file itself.

use vstd::prelude::*;
use vstd::string::StringSliceAdditionalSpecFns;
use vstd::utf8::encode_utf8;

use crate::string::bytes_equal;

verus! {

/// Which specs of one suite the runner requires.
#[derive(Debug)]
pub enum Suite {
    /// Run every spec, except any whose name starts with an entry of the
    /// skip list.
    All {
        /// Specs to leave out, by name prefix.
        skip: Option<Vec<String>>,
    },
    /// Run nothing from this suite.
    NotRun,
    /// Run exactly the specs whose name starts with an entry of the
    /// list.
    Only {
        /// Specs to run, by name prefix.
        specs: Vec<String>,
    },
}

/// One named suite of a family.
#[derive(Debug)]
pub struct SuiteEntry {
    /// The suite's name: the second path component of its spec files.
    pub name: String,
    /// Which of the suite's specs run.
    pub suite: Suite,
}

/// One family of suites.
#[derive(Debug)]
pub struct Family {
    /// The family's name: the first path component of its spec files.
    pub name: String,
    /// The family's suites.
    pub suites: Vec<SuiteEntry>,
}

/// A parsed spec manifest.
#[derive(Debug)]
pub struct Config {
    /// The families of suites the manifest configures.
    pub families: Vec<Family>,
}

/// The first position at or after `from` where `b` occurs in `s`, or
/// `s.len()` if it does not occur.
pub open spec fn idx_of(s: Seq<u8>, from: int, b: u8) -> int
    decreases s.len() - from,
{
    if from < 0 || from >= s.len() {
        s.len() as int
    } else if s[from] == b {
        from
    } else {
        idx_of(s, from + 1, b)
    }
}

/// The first family named `name`, if any.
pub open spec fn family_lookup(families: Seq<Family>, name: Seq<u8>) -> Option<Family>
    decreases families.len(),
{
    if families.len() == 0 {
        None
    } else if encode_utf8(families[0].name@) == name {
        Some(families[0])
    } else {
        family_lookup(families.skip(1), name)
    }
}

/// The first suite named `name`, if any.
pub open spec fn suite_lookup(entries: Seq<SuiteEntry>, name: Seq<u8>) -> Option<SuiteEntry>
    decreases entries.len(),
{
    if entries.len() == 0 {
        None
    } else if encode_utf8(entries[0].name@) == name {
        Some(entries[0])
    } else {
        suite_lookup(entries.skip(1), name)
    }
}

/// Whether any entry of `prefixes` is a name prefix of `spec_name`.
pub open spec fn any_prefix_matches(prefixes: Seq<String>, spec_name: Seq<u8>) -> bool {
    exists|k: int|
        0 <= k < prefixes.len() && (#[trigger] encode_utf8(prefixes[k]@)).is_prefix_of(spec_name)
}

/// Whether a suite requires the spec named `spec_name`.
pub open spec fn suite_allows(suite: Suite, spec_name: Seq<u8>) -> bool {
    match suite {
        Suite::All { skip: Some(sk) } => !any_prefix_matches(sk@, spec_name),
        Suite::All { skip: None } => true,
        Suite::NotRun => false,
        Suite::Only { specs } => any_prefix_matches(specs@, spec_name),
    }
}

/// Whether the runner requires the embedded spec file at `name`: the
/// path's first component selects the family, the second the suite, the
/// third names the spec; a path with fewer than three components, an
/// empty spec component (a trailing separator), or a family or suite the
/// manifest does not configure, is not required.
pub open spec fn is_require_path_spec(config: Config, name: Seq<u8>) -> bool {
    let i1 = idx_of(name, 0, 47);
    let i2 = idx_of(name, i1 + 1, 47);
    let i3 = idx_of(name, i2 + 1, 47);
    if i1 == name.len() || i2 == name.len() || i2 + 1 == i3 {
        false
    } else {
        let family = name.subrange(0, i1);
        let suite_name = name.subrange(i1 + 1, i2);
        let spec_name = name.subrange(i2 + 1, i3);
        match family_lookup(config.families@, family) {
            None => false,
            Some(f) => match suite_lookup(f.suites@, suite_name) {
                None => false,
                Some(entry) => suite_allows(entry.suite, spec_name),
            },
        }
    }
}

/// Find the first `b` at or after `from`.
fn find_byte(s: &[u8], from: usize, b: u8) -> (r: usize)
    requires
        from <= s@.len(),
    ensures
        r as int == idx_of(s@, from as int, b),
        from <= r <= s@.len(),
        r < s@.len() ==> s@[r as int] == b,
{
    let mut k = from;
    while k < s.len()
        invariant
            from <= k <= s@.len(),
            idx_of(s@, from as int, b) == idx_of(s@, k as int, b),
        decreases s@.len() - k,
    {
        if s[k] == b {
            return k;
        }
        k = k + 1;
    }
    k
}

/// Whether `p` is a prefix of `s`.
fn starts_with(s: &[u8], p: &[u8]) -> (r: bool)
    ensures
        r == p@.is_prefix_of(s@),
{
    if p.len() > s.len() {
        proof {
            assert(!p@.is_prefix_of(s@));
        }
        return false;
    }
    let mut k: usize = 0;
    while k < p.len()
        invariant
            0 <= k <= p@.len(),
            p@.len() <= s@.len(),
            forall|t: int| 0 <= t < k ==> p@[t] == s@[t],
        decreases p@.len() - k,
    {
        if p[k] != s[k] {
            proof {
                assert(!p@.is_prefix_of(s@)) by {
                    if p@.is_prefix_of(s@) {
                        assert(s@.subrange(0, p@.len() as int)[k as int] == s@[k as int]);
                    }
                }
            }
            return false;
        }
        k = k + 1;
    }
    proof {
        assert(p@ =~= s@.subrange(0, p@.len() as int));
    }
    true
}

/// Whether any entry of `prefixes` is a name prefix of `spec_name`.
fn any_prefix(prefixes: &Vec<String>, spec_name: &[u8]) -> (r: bool)
    ensures
        r == any_prefix_matches(prefixes@, spec_name@),
{
    let mut k: usize = 0;
    while k < prefixes.len()
        invariant
            0 <= k <= prefixes@.len(),
            forall|t: int|
                0 <= t < k ==> !(#[trigger] encode_utf8(prefixes@[t]@)).is_prefix_of(spec_name@),
        decreases prefixes@.len() - k,
    {
        if starts_with(spec_name, prefixes[k].as_str().as_bytes()) {
            return true;
        }
        k = k + 1;
    }
    false
}

/// Decide whether the embedded spec file at `name` should be required,
/// by evaluating its path against the parsed manifest.
pub fn is_require_path(config: &Config, name: &str) -> (r: bool)
    ensures
        r == is_require_path_spec(*config, name.spec_bytes()),
{
    let bytes = name.as_bytes();
    let ghost nb = name.spec_bytes();
    let i1 = find_byte(bytes, 0, 47);
    if i1 == bytes.len() {
        return false;
    }
    let i2 = find_byte(bytes, i1 + 1, 47);
    if i2 == bytes.len() {
        return false;
    }
    let i3 = find_byte(bytes, i2 + 1, 47);
    if i3 == i2 + 1 {
        return false;
    }
    let ghost gi1 = idx_of(nb, 0, 47);
    let ghost gi2 = idx_of(nb, gi1 + 1, 47);
    let ghost gi3 = idx_of(nb, gi2 + 1, 47);
    let family = vstd::slice::slice_subrange(bytes, 0, i1);
    let suite_name = vstd::slice::slice_subrange(bytes, i1 + 1, i2);
    let spec_name = vstd::slice::slice_subrange(bytes, i2 + 1, i3);

    // Look the family up by its name's UTF-8 bytes.
    let mut f: usize = 0;
    while f < config.families.len()
        invariant
            0 <= f <= config.families@.len(),
            nb == name.spec_bytes(),
            gi1 == idx_of(nb, 0, 47),
            gi2 == idx_of(nb, gi1 + 1, 47),
            gi3 == idx_of(nb, gi2 + 1, 47),
            0 <= gi1 < nb.len(),
            gi1 < gi2 < nb.len(),
            gi2 + 1 < gi3 <= nb.len(),
            family@ == nb.subrange(0, gi1),
            suite_name@ == nb.subrange(gi1 + 1, gi2),
            spec_name@ == nb.subrange(gi2 + 1, gi3),
            forall|t: int|
                0 <= t < f ==> encode_utf8((#[trigger] config.families@[t]).name@) != family@,
        decreases config.families@.len() - f,
    {
        if bytes_equal(config.families[f].name.as_str().as_bytes(), family) {
            proof {
                lemma_family_lookup_skip(config.families@, family@, f as int);
                assert(config.families@.skip(f as int)[0] == config.families@[f as int]);
                assert(family_lookup(config.families@, family@) == Some(
                    config.families@[f as int],
                ));
            }
            let entries = &config.families[f].suites;
            let mut e: usize = 0;
            while e < entries.len()
                invariant
                    0 <= e <= entries@.len(),
                    f < config.families@.len(),
                    entries@ == config.families@[f as int].suites@,
                    nb == name.spec_bytes(),
                    gi1 == idx_of(nb, 0, 47),
                    gi2 == idx_of(nb, gi1 + 1, 47),
                    gi3 == idx_of(nb, gi2 + 1, 47),
                    0 <= gi1 < nb.len(),
                    gi1 < gi2 < nb.len(),
                    gi2 + 1 < gi3 <= nb.len(),
                    family@ == nb.subrange(0, gi1),
                    suite_name@ == nb.subrange(gi1 + 1, gi2),
                    spec_name@ == nb.subrange(gi2 + 1, gi3),
                    family_lookup(config.families@, nb.subrange(0, gi1)) == Some(
                        config.families@[f as int],
                    ),
                    forall|t: int|
                        0 <= t < e ==> encode_utf8((#[trigger] entries@[t]).name@) != suite_name@,
                decreases entries@.len() - e,
            {
                if bytes_equal(entries[e].name.as_str().as_bytes(), suite_name) {
                    proof {
                        lemma_suite_lookup_skip(entries@, suite_name@, e as int);
                        assert(entries@.skip(e as int)[0] == entries@[e as int]);
                        assert(suite_lookup(entries@, suite_name@) == Some(entries@[e as int]));
                    }
                    return match &entries[e].suite {
                        Suite::All { skip: Some(sk) } => !any_prefix(sk, spec_name),
                        Suite::All { skip: None } => true,
                        Suite::NotRun => false,
                        Suite::Only { specs } => any_prefix(specs, spec_name),
                    };
                }
                e = e + 1;
            }
            proof {
                lemma_suite_lookup_skip(entries@, suite_name@, entries@.len() as int);
            }
            return false;
        }
        f = f + 1;
    }
    proof {
        lemma_family_lookup_skip(config.families@, family@, config.families@.len() as int);
    }
    false
}

/// Looking a family up past `i` entries that all miss is the same as
/// looking it up from the start.
proof fn lemma_family_lookup_skip(families: Seq<Family>, name: Seq<u8>, i: int)
    requires
        0 <= i <= families.len(),
        forall|t: int| 0 <= t < i ==> encode_utf8((#[trigger] families[t]).name@) != name,
    ensures
        family_lookup(families, name) == family_lookup(families.skip(i), name),
    decreases i,
{
    if i > 0 {
        assert(encode_utf8(families[0].name@) != name);
        assert forall|t: int| 0 <= t < i - 1 implies encode_utf8(
            (#[trigger] families.skip(1)[t]).name@,
        ) != name by {
            assert(families.skip(1)[t] == families[t + 1]);
        }
        lemma_family_lookup_skip(families.skip(1), name, i - 1);
        assert(families.skip(1).skip(i - 1) =~= families.skip(i));
    } else {
        assert(families.skip(0) =~= families);
    }
}

/// Looking a suite up past `i` entries that all miss is the same as
/// looking it up from the start.
proof fn lemma_suite_lookup_skip(entries: Seq<SuiteEntry>, name: Seq<u8>, i: int)
    requires
        0 <= i <= entries.len(),
        forall|t: int| 0 <= t < i ==> encode_utf8((#[trigger] entries[t]).name@) != name,
    ensures
        suite_lookup(entries, name) == suite_lookup(entries.skip(i), name),
    decreases i,
{
    if i > 0 {
        assert(encode_utf8(entries[0].name@) != name);
        assert forall|t: int| 0 <= t < i - 1 implies encode_utf8(
            (#[trigger] entries.skip(1)[t]).name@,
        ) != name by {
            assert(entries.skip(1)[t] == entries[t + 1]);
        }
        lemma_suite_lookup_skip(entries.skip(1), name, i - 1);
        assert(entries.skip(1).skip(i - 1) =~= entries.skip(i));
    } else {
        assert(entries.skip(0) =~= entries);
    }
}

} // verus!
