//! Where the agent executable and its configuration file are looked for,
//! and which candidate is taken.
use vstd::prelude::*;
use crate::config::{non_blank, opt_view};
use crate::text::is_blank_str;

verus! {

/// A path to try: a base directory and the components joined onto it.
#[derive(Clone, Debug)]
pub struct PathCandidate {
    pub base: String,
    pub parts: Vec<String>,
}

/// A candidate as values.
pub open spec fn candidate_view(c: PathCandidate) -> (Seq<char>, Seq<Seq<char>>) {
    (c.base@, c.parts@.map_values(|p: String| p@))
}

/// Candidates as values.
pub open spec fn candidates_view(cs: Seq<PathCandidate>) -> Seq<(Seq<char>, Seq<Seq<char>>)> {
    cs.map_values(|c: PathCandidate| candidate_view(c))
}

/// The agent executable's file name on the platform.
pub open spec fn spec_agent_file_name(windows: bool) -> Seq<char> {
    if windows {
        "goosed.exe"@
    } else {
        "goosed"@
    }
}

/// The file name of the agent executable: `goosed.exe` on Windows, `goosed`
/// elsewhere.
pub fn goose_agent_file_name(windows: bool) -> (r: &'static str)
    ensures
        r@ == spec_agent_file_name(windows),
{
    if windows {
        "goosed.exe"
    } else {
        "goosed"
    }
}

/// The packaged Goose bundle's executable, below a base directory.
pub open spec fn packaged_agent_parts(f: Seq<char>) -> Seq<Seq<char>> {
    seq!["bin"@, "Goose-win32-x64"@, "resources"@, "bin"@, f]
}

/// Each base directory with the same components joined onto it, in order.
pub open spec fn under_each(dirs: Seq<String>, parts: Seq<Seq<char>>) -> Seq<(Seq<char>, Seq<Seq<char>>)>
    decreases dirs.len(),
{
    if dirs.len() == 0 {
        seq![]
    } else {
        under_each(dirs.drop_last(), parts).push((dirs.last()@, parts))
    }
}

/// The executable candidates, in this order: the packaged bundle
/// `bin/Goose-win32-x64/resources/bin/<file>` in every base directory, then
/// `<file>` in every base directory, then `bin/<file>` in every one.
pub open spec fn spec_agent_candidates(dirs: Seq<String>, windows: bool) -> Seq<(Seq<char>, Seq<Seq<char>>)> {
    let f = spec_agent_file_name(windows);
    under_each(dirs, packaged_agent_parts(f)) + under_each(dirs, seq![f]) + under_each(
        dirs,
        seq!["bin"@, f],
    )
}

fn strings(parts: &[&str]) -> (r: Vec<String>)
    ensures
        r@.map_values(|p: String| p@) == parts@.map_values(|p: &str| p@),
{
    let mut r: Vec<String> = Vec::new();
    let mut i: usize = 0;
    while i < parts.len()
        invariant
            0 <= i <= parts.len(),
            r@.map_values(|p: String| p@) == parts@.take(i as int).map_values(|p: &str| p@),
        decreases parts.len() - i,
    {
        let ghost r0 = r@;
        let s = parts[i].to_owned();
        r.push(s);
        assert(parts@.take(i + 1) =~= parts@.take(i as int).push(parts@[i as int]));
        assert(r@ =~= r0.push(s));
        assert(r@.map_values(|p: String| p@) =~= r0.map_values(|p: String| p@).push(s@));
        i = i + 1;
        assert(r@.map_values(|p: String| p@) =~= parts@.take(i as int).map_values(|p: &str| p@));
    }
    assert(parts@.take(parts.len() as int) =~= parts@);
    r
}

fn candidate(base: &String, parts: &[&str]) -> (r: PathCandidate)
    ensures
        candidate_view(r) == (base@, parts@.map_values(|p: &str| p@)),
{
    PathCandidate { base: base.clone(), parts: strings(parts) }
}

/// Appends, for each base directory in order, the candidate with `parts`.
fn push_under_each(out: &mut Vec<PathCandidate>, dirs: &Vec<String>, parts: &[&str])
    ensures
        candidates_view(final(out)@) == candidates_view(old(out)@) + under_each(
            dirs@,
            parts@.map_values(|p: &str| p@),
        ),
{
    let ghost start = candidates_view(out@);
    let ghost pv = parts@.map_values(|p: &str| p@);
    let mut i: usize = 0;
    while i < dirs.len()
        invariant
            0 <= i <= dirs.len(),
            pv == parts@.map_values(|p: &str| p@),
            candidates_view(out@) == start + under_each(dirs@.take(i as int), pv),
        decreases dirs.len() - i,
    {
        let ghost before = candidates_view(out@);
        out.push(candidate(&dirs[i], parts));
        proof {
            assert(dirs@.take(i + 1).drop_last() =~= dirs@.take(i as int));
            assert(dirs@.take(i + 1).last() == dirs@[i as int]);
            assert(candidates_view(out@) =~= before.push((dirs@[i as int]@, pv)));
        }
        i = i + 1;
    }
    assert(dirs@.take(dirs.len() as int) =~= dirs@);
}

/// The paths where the agent executable may be (see `spec_agent_candidates`).
pub fn goose_agent_candidates(base_dirs: &Vec<String>, windows: bool) -> (r: Vec<PathCandidate>)
    ensures
        candidates_view(r@) == spec_agent_candidates(base_dirs@, windows),
{
    let f = goose_agent_file_name(windows);
    let mut out: Vec<PathCandidate> = Vec::new();
    let packaged = ["bin", "Goose-win32-x64", "resources", "bin", f];
    let plain = [f];
    let in_bin = ["bin", f];
    push_under_each(&mut out, base_dirs, &packaged);
    push_under_each(&mut out, base_dirs, &plain);
    push_under_each(&mut out, base_dirs, &in_bin);
    proof {
        assert(packaged@.map_values(|p: &str| p@) =~= packaged_agent_parts(f@));
        assert(plain@.map_values(|p: &str| p@) =~= seq![f@]);
        assert(in_bin@.map_values(|p: &str| p@) =~= seq!["bin"@, f@]);
        assert(candidates_view(out@) =~= spec_agent_candidates(base_dirs@, windows));
    }
    out
}

/// The configuration file's name.
pub open spec fn config_file_name() -> Seq<char> {
    "goose.config.json"@
}

/// The places looked at in one directory, in order: the directory itself,
/// its `resources`, its `_up_`, and `resources/_up_`.
pub open spec fn config_candidates_in(dir: Seq<char>) -> Seq<(Seq<char>, Seq<Seq<char>>)> {
    seq![
        (dir, seq![config_file_name()]),
        (dir, seq!["resources"@, config_file_name()]),
        (dir, seq!["_up_"@, config_file_name()]),
        (dir, seq!["resources"@, "_up_"@, config_file_name()]),
    ]
}

/// The candidates in each directory of one chain, in order.
pub open spec fn chain_candidates(chain: Seq<Seq<char>>) -> Seq<(Seq<char>, Seq<Seq<char>>)>
    decreases chain.len(),
{
    if chain.len() == 0 {
        seq![]
    } else {
        chain_candidates(chain.drop_last()) + config_candidates_in(chain.last())
    }
}

/// The candidates of each chain, in order.
pub open spec fn chains_candidates(chains: Seq<Seq<Seq<char>>>) -> Seq<(Seq<char>, Seq<Seq<char>>)>
    decreases chains.len(),
{
    if chains.len() == 0 {
        seq![]
    } else {
        chains_candidates(chains.drop_last()) + chain_candidates(chains.last())
    }
}

/// Where the configuration file is looked for: the path that the
/// environment names, unless blank; then, for each base directory, the
/// directory and its ancestors as the chain lists them.
pub open spec fn spec_config_candidates(env_path: Option<Seq<char>>, chains: Seq<Seq<Seq<char>>>) -> Seq<(Seq<char>, Seq<Seq<char>>)> {
    (match env_path {
        Some(p) => seq![(p, Seq::<Seq<char>>::empty())],
        None => seq![],
    }) + chains_candidates(chains)
}

/// How many directories up the configuration file is looked for, the
/// directory itself included.
pub open spec fn max_config_depth() -> nat {
    6
}

/// `t` is a strictly shorter prefix of `s`.
pub open spec fn is_strict_prefix(t: Seq<char>, s: Seq<char>) -> bool {
    t.len() < s.len() && t == s.subrange(0, t.len() as int)
}

/// Calls `std::path::Path::parent` on `path`: the path without its final
/// component, a slice at the start of `path`, so a strictly shorter prefix of
/// it. Which prefix that is depends on the platform's path syntax and is not
/// stated.
#[verifier::external_body]
fn path_parent(path: &str) -> (r: Option<String>)
    ensures
        r matches Some(p) ==> is_strict_prefix(p@, path@),
{
    std::path::Path::new(path).parent().map(|p| p.to_string_lossy().into_owned())
}

/// Texts as values.
pub open spec fn texts_view(v: Seq<String>) -> Seq<Seq<char>> {
    v.map_values(|d: String| d@)
}

/// A chain of directories as the upward walk from `dir` gives it: `dir`
/// first, at most `max_config_depth` of them, each after the first a
/// strictly shorter prefix of the one before.
pub open spec fn is_ancestor_chain(chain: Seq<Seq<char>>, dir: Seq<char>) -> bool {
    &&& 1 <= chain.len() <= max_config_depth()
    &&& chain[0] == dir
    &&& forall|k: int| 0 < k < chain.len() ==> is_strict_prefix(#[trigger] chain[k], chain[k - 1])
}

/// Where the upward walk from `dir` starts: the chain holds `dir` alone, and
/// the parent of `dir` is asked for next.
pub open spec fn spec_ancestor_start(dir: Seq<char>) -> (Seq<Seq<char>>, Option<Seq<char>>) {
    (seq![dir], Some(dir))
}

/// One step of the upward walk, from the chain so far and the parent that
/// was reported for its last directory: a parent is appended while the chain
/// is shorter than `max_config_depth`, and is then asked about in turn
/// unless the chain has reached that depth; no parent ends the walk.
pub open spec fn spec_ancestor_step(chain: Seq<Seq<char>>, parent: Option<Seq<char>>) -> (Seq<Seq<char>>, Option<Seq<char>>) {
    match parent {
        Some(p) => if chain.len() < max_config_depth() {
            (chain.push(p), if chain.len() + 1 < max_config_depth() {
                Some(p)
            } else {
                None
            })
        } else {
            (chain, None)
        },
        None => (chain, None),
    }
}

/// `spec_ancestor_start(dir)`.
pub fn ancestor_start(dir: &str) -> (r: (Vec<String>, Option<String>))
    ensures
        (texts_view(r.0@), opt_view(r.1)) == spec_ancestor_start(dir@),
{
    let mut chain: Vec<String> = Vec::new();
    chain.push(dir.to_owned());
    assert(texts_view(chain@) =~= seq![dir@]);
    (chain, Some(dir.to_owned()))
}

/// `spec_ancestor_step`: extends `chain` and gives the directory whose
/// parent is to be asked for next, if any.
pub fn ancestor_step(chain: &mut Vec<String>, parent: Option<String>) -> (ask: Option<String>)
    ensures
        (texts_view(final(chain)@), opt_view(ask)) == spec_ancestor_step(texts_view(old(chain)@), opt_view(parent)),
{
    match parent {
        Some(p) => {
            if chain.len() < 6 {
                let ghost before = chain@;
                let next = p.clone();
                chain.push(p);
                assert(texts_view(chain@) =~= texts_view(before).push(next@));
                if chain.len() < 6 {
                    Some(next)
                } else {
                    None
                }
            } else {
                None
            }
        },
        None => None,
    }
}

/// `dir` and its ancestors, nearest first, at most `max_config_depth` of
/// them: the walk of `spec_ancestor_start` and `spec_ancestor_step`, where
/// each parent is the one `Path::parent` reports for the directory the
/// previous step named.
pub fn ancestor_chain(dir: &str) -> (r: Vec<String>)
    ensures
        1 <= r@.len() <= max_config_depth(),
        r@[0]@ == dir@,
        forall|k: int| 0 < k < r@.len() ==> is_strict_prefix(#[trigger] r@[k]@, r@[k - 1]@),
{
    let (mut chain, mut ask) = ancestor_start(dir);
    assert(texts_view(chain@).len() == chain@.len());
    assert(texts_view(chain@)[0] == chain@[0]@);
    loop
        invariant
            1 <= chain@.len() <= max_config_depth(),
            chain@[0]@ == dir@,
            ask is Some ==> chain@.len() < max_config_depth(),
            ask matches Some(d) ==> d@ == chain@.last()@,
            forall|k: int| 0 < k < chain@.len() ==> is_strict_prefix(#[trigger] chain@[k]@, chain@[k - 1]@),
        decreases (max_config_depth() - chain@.len()) * 2 + if ask is Some {
            1int
        } else {
            0int
        },
    {
        match ask {
            None => {
                break ;
            },
            Some(d) => {
                let parent = path_parent(d.as_str());
                let ghost before = texts_view(chain@);
                assert(before[0] == dir@);
                ask = ancestor_step(&mut chain, parent);
                proof {
                    assert(texts_view(chain@).len() == chain@.len());
                    assert(texts_view(chain@)[0] == before[0]);
                    assert(texts_view(chain@)[0] == chain@[0]@);
                    assert forall|k: int| 0 < k < chain@.len() implies is_strict_prefix(
                        #[trigger] chain@[k]@,
                        chain@[k - 1]@,
                    ) by {
                        assert(texts_view(chain@)[k] == chain@[k]@);
                        assert(texts_view(chain@)[k - 1] == chain@[k - 1]@);
                        if k < before.len() {
                            assert(texts_view(chain@)[k] == before[k]);
                            assert(texts_view(chain@)[k - 1] == before[k - 1]);
                        }
                    }
                    if ask is Some {
                        assert(texts_view(chain@).last() == chain@.last()@);
                    }
                }
            },
        }
    }
    chain
}

fn config_candidates_in_exec(out: &mut Vec<PathCandidate>, dir: &String)
    ensures
        candidates_view(final(out)@) == candidates_view(old(out)@) + config_candidates_in(dir@),
{
    let f = "goose.config.json";
    let ghost before = out@;
    let a = [f];
    let b = ["resources", f];
    let c = ["_up_", f];
    let d = ["resources", "_up_", f];
    out.push(candidate(dir, &a));
    out.push(candidate(dir, &b));
    out.push(candidate(dir, &c));
    out.push(candidate(dir, &d));
    proof {
        assert(a@.map_values(|p: &str| p@) =~= seq![f@]);
        assert(b@.map_values(|p: &str| p@) =~= seq!["resources"@, f@]);
        assert(c@.map_values(|p: &str| p@) =~= seq!["_up_"@, f@]);
        assert(d@.map_values(|p: &str| p@) =~= seq!["resources"@, "_up_"@, f@]);
        assert(candidates_view(out@) =~= candidates_view(before) + config_candidates_in(dir@));
    }
}

/// Chains as values.
pub open spec fn chains_view(chains: Seq<Vec<String>>) -> Seq<Seq<Seq<char>>> {
    chains.map_values(|c: Vec<String>| c@.map_values(|d: String| d@))
}

/// The configuration candidates for given ancestor chains (see
/// `spec_config_candidates`).
pub fn config_candidates_from_chains(env_path: &Option<String>, chains: &Vec<Vec<String>>) -> (r: Vec<PathCandidate>)
    ensures
        candidates_view(r@) == spec_config_candidates(non_blank(*env_path), chains_view(chains@)),
{
    let mut out: Vec<PathCandidate> = Vec::new();
    match env_path {
        Some(p) => {
            if !is_blank_str(p.as_str()) {
                let c = PathCandidate { base: p.clone(), parts: Vec::new() };
                assert(c.parts@.map_values(|d: String| d@) =~= Seq::<Seq<char>>::empty());
                out.push(c);
                assert(candidates_view(out@) =~= seq![(p@, Seq::<Seq<char>>::empty())]);
            }
        },
        None => {},
    }
    let ghost head = candidates_view(out@);
    assert(head =~= match non_blank(*env_path) {
        Some(p) => seq![(p, Seq::<Seq<char>>::empty())],
        None => Seq::<(Seq<char>, Seq<Seq<char>>)>::empty(),
    });
    let ghost cv = chains_view(chains@);
    let mut i: usize = 0;
    while i < chains.len()
        invariant
            0 <= i <= chains.len(),
            cv == chains_view(chains@),
            candidates_view(out@) == head + chains_candidates(cv.take(i as int)),
        decreases chains.len() - i,
    {
        let chain = &chains[i];
        let ghost at_chain = candidates_view(out@);
        let ghost ch = cv[i as int];
        assert(ch == chain@.map_values(|d: String| d@));
        let mut j: usize = 0;
        while j < chain.len()
            invariant
                0 <= j <= chain.len(),
                ch == chain@.map_values(|d: String| d@),
                candidates_view(out@) == at_chain + chain_candidates(ch.take(j as int)),
            decreases chain.len() - j,
        {
            config_candidates_in_exec(&mut out, &chain[j]);
            assert(ch.take(j + 1).drop_last() =~= ch.take(j as int));
            assert(ch.take(j + 1).last() == chain@[j as int]@);
            j = j + 1;
        }
        assert(ch.take(chain.len() as int) =~= ch);
        assert(cv.take(i + 1).drop_last() =~= cv.take(i as int));
        i = i + 1;
    }
    assert(cv.take(chains.len() as int) =~= cv);
    out
}

/// Where the configuration file is looked for: the path in
/// `NEXTCHAT_GOOSE_CONFIG` unless blank, then each base directory and up to
/// five of its ancestors, each with the places of `config_candidates_in`.
pub fn goose_config_candidates(env_path: &Option<String>, base_dirs: &Vec<String>) -> (r: Vec<PathCandidate>)
    ensures
        exists|chains: Seq<Seq<Seq<char>>>|
            {
                &&& chains.len() == base_dirs@.len()
                &&& forall|k: int|
                    0 <= k < chains.len() ==> is_ancestor_chain(#[trigger] chains[k], base_dirs@[k]@)
                &&& candidates_view(r@) == spec_config_candidates(non_blank(*env_path), chains)
            },
{
    let mut chains: Vec<Vec<String>> = Vec::new();
    let mut i: usize = 0;
    while i < base_dirs.len()
        invariant
            0 <= i <= base_dirs.len(),
            chains@.len() == i,
            forall|k: int|
                0 <= k < i ==> is_ancestor_chain(texts_view((#[trigger] chains@[k])@), base_dirs@[k]@),
        decreases base_dirs.len() - i,
    {
        let c = ancestor_chain(base_dirs[i].as_str());
        proof {
            let t = texts_view(c@);
            assert forall|k: int| 0 < k < t.len() implies is_strict_prefix(#[trigger] t[k], t[k - 1]) by {
                assert(t[k] == c@[k]@);
                assert(t[k - 1] == c@[k - 1]@);
            }
            assert(t[0] == c@[0]@);
        }
        chains.push(c);
        i = i + 1;
    }
    let r = config_candidates_from_chains(env_path, &chains);
    let ghost cv = chains_view(chains@);
    assert forall|k: int| 0 <= k < cv.len() implies is_ancestor_chain(#[trigger] cv[k], base_dirs@[k]@) by {
        assert(cv[k] == texts_view(chains@[k]@));
    }
    r
}

/// The first candidate that exists.
pub open spec fn first_existing(cs: Seq<(String, bool)>) -> Option<Seq<char>>
    decreases cs.len(),
{
    if cs.len() == 0 {
        None
    } else if cs[0].1 {
        Some(cs[0].0@)
    } else {
        first_existing(cs.drop_first())
    }
}

/// The agent executable to run: the path in `NEXTCHAT_GOOSE_AGENT_BIN` unless
/// blank; else the first candidate path that exists; else the executable
/// that `NEXTCHAT_GOOSE_BIN` names, unless blank.
pub open spec fn spec_resolve_agent(env_agent_bin: Option<String>, candidates: Seq<(String, bool)>, env_goose_bin: Option<String>) -> Option<Seq<char>> {
    match non_blank(env_agent_bin) {
        Some(p) => Some(p),
        None => match first_existing(candidates) {
            Some(p) => Some(p),
            None => non_blank(env_goose_bin),
        },
    }
}

/// Picks the agent executable from the environment's overrides and the
/// candidate paths, each with whether it exists.
pub fn resolve_goose_agent(env_agent_bin: &Option<String>, candidates: &Vec<(String, bool)>, env_goose_bin: &Option<String>) -> (r: Option<String>)
    ensures
        opt_view(r) == spec_resolve_agent(*env_agent_bin, candidates@, *env_goose_bin),
{
    match env_agent_bin {
        Some(p) => {
            if !is_blank_str(p.as_str()) {
                return Some(p.clone());
            }
        },
        None => {},
    }
    let mut i: usize = 0;
    assert(candidates@.skip(0) =~= candidates@);
    while i < candidates.len()
        invariant
            0 <= i <= candidates.len(),
            spec_resolve_agent(*env_agent_bin, candidates@, *env_goose_bin) == match first_existing(candidates@) {
                Some(p) => Some(p),
                None => non_blank(*env_goose_bin),
            },
            first_existing(candidates@) == first_existing(candidates@.skip(i as int)),
        decreases candidates.len() - i,
    {
        assert(candidates@.skip(i as int).drop_first() =~= candidates@.skip(i + 1));
        assert(candidates@.skip(i as int)[0] == candidates@[i as int]);
        if candidates[i].1 {
            return Some(candidates[i].0.clone());
        }
        i = i + 1;
    }
    match env_goose_bin {
        Some(p) => {
            if !is_blank_str(p.as_str()) {
                Some(p.clone())
            } else {
                None
            }
        },
        None => None,
    }
}

} // verus!
