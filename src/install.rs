use vstd::prelude::*;

verus! {

/// The first candidate that was found to exist, trying them in order.
pub open spec fn first_existing(probes: Seq<(Seq<char>, bool)>) -> Option<Seq<char>>
    decreases probes.len(),
{
    if probes.len() == 0 {
        None
    } else if probes[0].1 {
        Some(probes[0].0)
    } else {
        first_existing(probes.drop_first())
    }
}

pub open spec fn probe_views(v: Seq<(String, bool)>) -> Seq<(Seq<char>, bool)> {
    v.map_values(|p: (String, bool)| (p.0@, p.1))
}

pub open spec fn opt_view(o: Option<String>) -> Option<Seq<char>> {
    match o {
        Some(s) => Some(s@),
        None => None,
    }
}

/// The installation root: the value of the environment's override where it is set,
/// else the first candidate directory that exists.
pub open spec fn install_root_of(env: Option<Seq<char>>, probes: Seq<(Seq<char>, bool)>) -> Option<
    Seq<char>,
> {
    match env {
        Some(v) => Some(v),
        None => first_existing(probes),
    }
}

/// The conventional installation directories, newest release first.
pub fn default_install_candidates() -> (r: Vec<String>)
    ensures
        r@.len() == 4,
        r@[0]@ == "/opt/hfs18.5"@,
        r@[1]@ == "/opt/hfs18.0"@,
        r@[2]@ == "/opt/hfs17.5"@,
        r@[3]@ == "/opt/hfs17.0"@,
{
    let mut r: Vec<String> = Vec::new();
    r.push(String::from_str("/opt/hfs18.5"));
    r.push(String::from_str("/opt/hfs18.0"));
    r.push(String::from_str("/opt/hfs17.5"));
    r.push(String::from_str("/opt/hfs17.0"));
    r
}

/// Picks the installation root from the override `env` and the candidates, each paired
/// with whether it exists; `None` when there is no override and none exists.
pub fn select_install_root(env: Option<String>, probes: &Vec<(String, bool)>) -> (r: Option<String>)
    ensures
        r matches Some(v) ==> install_root_of(opt_view(env), probe_views(probes@)) == Some(v@),
        r is None ==> install_root_of(opt_view(env), probe_views(probes@)) is None,
{
    match env {
        Some(v) => Some(v),
        None => {
            let ghost ps = probe_views(probes@);
            let mut i: usize = 0;
            assert(ps.subrange(0, ps.len() as int) =~= ps);
            while i < probes.len()
                invariant
                    i <= probes@.len(),
                    env is None,
                    ps == probe_views(probes@),
                    first_existing(ps) == first_existing(ps.subrange(i as int, ps.len() as int)),
                decreases probes@.len() - i,
            {
                let ghost rest = ps.subrange(i as int, ps.len() as int);
                assert(rest.drop_first() =~= ps.subrange(i + 1, ps.len() as int));
                assert(rest[0] == ps[i as int]);
                assert(ps[i as int] == (probes@[i as int].0@, probes@[i as int].1));
                if probes[i].1 {
                    let v = probes[i].0.clone();
                    return Some(v);
                }
                i += 1;
            }
            None
        },
    }
}

} // verus!
