use vstd::prelude::*;

use crate::text::{contains_str, occurs_in, same_str, views};

verus! {

/// A pair of strings as character sequences.
pub open spec fn pair_view(p: (String, String)) -> (Seq<char>, Seq<char>) {
    (p.0@, p.1@)
}

pub open spec fn pair_views(v: Seq<(String, String)>) -> Seq<(Seq<char>, Seq<char>)> {
    v.map_values(|p: (String, String)| pair_view(p))
}

/// An event of the build stream as character sequences: the package identity and
/// output directory of an executed build script, or `None` for any other event.
pub open spec fn event_views(v: Seq<Option<(String, String)>>) -> Seq<
    Option<(Seq<char>, Seq<char>)>,
> {
    v.map_values(
        |e: Option<(String, String)>|
            match e {
                Some(p) => Some(pair_view(p)),
                None => None,
            },
    )
}

/// The deepest nesting of JSON arrays and objects that a line of the event stream may
/// hold before it is parsed; serde_json's own default limit.
pub const MAX_NESTING: usize = 128;

/// Where a scan of the stream's bytes stands: the nesting depth of brackets outside
/// strings on the current line, whether it is inside a string, whether the previous
/// byte was an escaping backslash there, and whether the depth has stayed in bound.
pub struct NestScan {
    pub depth: int,
    pub in_str: bool,
    pub escaped: bool,
    pub ok: bool,
}

/// One byte of the scan. A newline starts a new document; brackets inside strings
/// do not count; an unmatched closing bracket leaves the depth at zero.
pub open spec fn nest_step(st: NestScan, b: u8) -> NestScan {
    if b == 10 {
        NestScan { depth: 0, in_str: false, escaped: false, ok: st.ok }
    } else if st.in_str {
        if st.escaped {
            NestScan { escaped: false, ..st }
        } else if b == 92 {
            NestScan { escaped: true, ..st }
        } else if b == 34 {
            NestScan { in_str: false, ..st }
        } else {
            st
        }
    } else if b == 34 {
        NestScan { in_str: true, ..st }
    } else if b == 91 || b == 123 {
        NestScan { depth: st.depth + 1, ok: st.ok && st.depth + 1 <= MAX_NESTING as int, ..st }
    } else if b == 93 || b == 125 {
        NestScan {
            depth: if st.depth > 0 {
                st.depth - 1
            } else {
                0
            },
            ..st
        }
    } else {
        st
    }
}

pub open spec fn nest_scan(s: Seq<u8>) -> NestScan
    decreases s.len(),
{
    if s.len() == 0 {
        NestScan { depth: 0, in_str: false, escaped: false, ok: true }
    } else {
        nest_step(nest_scan(s.drop_last()), s.last())
    }
}

/// No line of `s` nests arrays and objects deeper than `MAX_NESTING`.
pub open spec fn nesting_within_bound(s: Seq<u8>) -> bool {
    nest_scan(s).ok
}

/// Whether no line of `s` nests arrays and objects deeper than `MAX_NESTING`.
pub fn check_nesting(s: &Vec<u8>) -> (r: bool)
    ensures
        r == nesting_within_bound(s@),
{
    let mut depth: usize = 0;
    let mut in_str = false;
    let mut escaped = false;
    let mut i: usize = 0;
    assert(s@.subrange(0, 0) =~= Seq::<u8>::empty());
    while i < s.len()
        invariant
            i <= s@.len(),
            depth <= MAX_NESTING,
            nest_scan(s@.subrange(0, i as int)) == (NestScan {
                depth: depth as int,
                in_str,
                escaped,
                ok: true,
            }),
        decreases s@.len() - i,
    {
        let b = s[i];
        assert(s@.subrange(0, i + 1).drop_last() =~= s@.subrange(0, i as int));
        if b == 10 {
            depth = 0;
            in_str = false;
            escaped = false;
        } else if in_str {
            if escaped {
                escaped = false;
            } else if b == 92 {
                escaped = true;
            } else if b == 34 {
                in_str = false;
            }
        } else if b == 34 {
            in_str = true;
        } else if b == 91 || b == 123 {
            if depth >= MAX_NESTING {
                proof {
                    lemma_nest_failure_sticks(s@, i as int + 1);
                }
                return false;
            }
            depth = depth + 1;
        } else if b == 93 || b == 125 {
            if depth > 0 {
                depth = depth - 1;
            }
        }
        i += 1;
    }
    assert(s@.subrange(0, s@.len() as int) =~= s@);
    true
}

/// Once the scan of a prefix is out of bound, so is the scan of the whole.
proof fn lemma_nest_failure_sticks(s: Seq<u8>, k: int)
    requires
        0 <= k <= s.len(),
        !nest_scan(s.subrange(0, k)).ok,
    ensures
        !nest_scan(s).ok,
    decreases s.len() - k,
{
    if k < s.len() {
        assert(s.subrange(0, k + 1).drop_last() =~= s.subrange(0, k));
        lemma_nest_failure_sticks(s, k + 1);
    } else {
        assert(s.subrange(0, k) =~= s);
    }
}

/// What cargo_metadata's message parser reads from a build's standard output: for each
/// line, the package identity and output directory of an executed build script, or
/// `None` for a cargo message of another kind; `None` overall when some line cannot be
/// read as text or is not a cargo message.
pub uninterp spec fn build_events_of(stdout: Seq<u8>) -> Option<Seq<Option<(Seq<char>, Seq<char>)>>>;

/// Relies on `cargo_metadata::Message::parse_stream`: it reads one message per line,
/// yields an error where a line is not text, and a `TextLine` where a line is not a
/// cargo message. It parses each line with serde_json's recursion limit switched off,
/// so the nesting of every line is bounded first.
#[verifier::external_body]
pub(crate) fn parse_build_events(stdout: &Vec<u8>) -> (r: Option<Vec<Option<(String, String)>>>)
    requires
        nesting_within_bound(stdout@),
    ensures
        match r {
            Some(v) => build_events_of(stdout@) == Some(event_views(v@)),
            None => build_events_of(stdout@) is None,
        },
{
    cargo_metadata::Message::parse_stream(stdout.as_slice()).map(|m| match m {
        Ok(cargo_metadata::Message::BuildScriptExecuted(s)) => Ok(
            Some((s.package_id.repr, s.out_dir.into_string())),
        ),
        Ok(cargo_metadata::Message::TextLine(_)) => Err(()),
        Ok(_) => Ok(None),
        Err(_) => Err(()),
    }).collect::<Result<Vec<_>, ()>>().ok()
}

/// The records for one build script of a package other than the root: one for each
/// dependency name of interest that occurs in the package's identity, in list order.
pub open spec fn dep_records(id: Seq<char>, dir: Seq<char>, deps: Seq<Seq<char>>) -> Seq<
    (Seq<char>, Seq<char>),
>
    decreases deps.len(),
{
    if deps.len() == 0 {
        Seq::empty()
    } else {
        dep_records(id, dir, deps.drop_last()) + if occurs_in(id, deps.last()) {
            seq![(deps.last(), dir)]
        } else {
            Seq::empty()
        }
    }
}

/// The records for one event of the stream.
pub open spec fn event_records(
    ev: Option<(Seq<char>, Seq<char>)>,
    root_id: Seq<char>,
    root_name: Seq<char>,
    deps: Seq<Seq<char>>,
) -> Seq<(Seq<char>, Seq<char>)> {
    match ev {
        None => Seq::empty(),
        Some((id, dir)) => if id == root_id {
            seq![(root_name, dir)]
        } else {
            dep_records(id, dir, deps)
        },
    }
}

/// The (name, output directory) records of a stream of events, in stream order.
pub open spec fn records_of(
    events: Seq<Option<(Seq<char>, Seq<char>)>>,
    root_id: Seq<char>,
    root_name: Seq<char>,
    deps: Seq<Seq<char>>,
) -> Seq<(Seq<char>, Seq<char>)>
    decreases events.len(),
{
    if events.len() == 0 {
        Seq::empty()
    } else {
        records_of(events.drop_last(), root_id, root_name, deps) + event_records(
            events.last(),
            root_id,
            root_name,
            deps,
        )
    }
}

/// Collects the output directories of the build scripts in `events`: the root package's
/// under its own name, and any other package's under each name in `deps` that occurs
/// in its identity.
pub fn collect_records(
    events: &Vec<Option<(String, String)>>,
    root_id: &str,
    root_name: &str,
    deps: &Vec<String>,
) -> (r: Vec<(String, String)>)
    ensures
        pair_views(r@) == records_of(event_views(events@), root_id@, root_name@, views(deps@)),
{
    let ghost evs = event_views(events@);
    let mut r: Vec<(String, String)> = Vec::new();
    let mut i: usize = 0;
    assert(evs.subrange(0, 0) =~= Seq::<Option<(Seq<char>, Seq<char>)>>::empty());
    assert(pair_views(r@) =~= Seq::<(Seq<char>, Seq<char>)>::empty());
    while i < events.len()
        invariant
            i <= events@.len(),
            evs == event_views(events@),
            pair_views(r@) == records_of(evs.subrange(0, i as int), root_id@, root_name@, views(deps@)),
        decreases events@.len() - i,
    {
        assert(evs.subrange(0, i + 1).drop_last() =~= evs.subrange(0, i as int));
        match &events[i] {
            None => {},
            Some((id, dir)) => {
                if same_str(id.as_str(), root_id) {
                    let ghost prev = r@;
                    r.push((String::from_str(root_name), dir.clone()));
                    assert(pair_views(r@) =~= pair_views(prev) + seq![(root_name@, dir@)]);
                } else {
                    let mut k: usize = 0;
                    let ghost base = pair_views(r@);
                    assert(views(deps@).subrange(0, 0) =~= Seq::<Seq<char>>::empty());
                    assert(base =~= base + dep_records(id@, dir@, views(deps@).subrange(0, 0)));
                    while k < deps.len()
                        invariant
                            k <= deps@.len(),
                            pair_views(r@) == base + dep_records(id@, dir@, views(deps@).subrange(0, k as int)),
                        decreases deps@.len() - k,
                    {
                        let ghost sub = views(deps@).subrange(0, k + 1);
                        assert(sub.drop_last() =~= views(deps@).subrange(0, k as int));
                        assert(sub.last() == deps@[k as int]@);
                        if contains_str(id.as_str(), deps[k].as_str()) {
                            let ghost prev = r@;
                            r.push((deps[k].clone(), dir.clone()));
                            assert(pair_views(r@) =~= pair_views(prev) + seq![(deps@[k as int]@, dir@)]);
                        } else {
                            assert(dep_records(id@, dir@, sub) =~= dep_records(id@, dir@, sub.drop_last()));
                        }
                        k += 1;
                    }
                    assert(views(deps@).subrange(0, deps@.len() as int) =~= views(deps@));
                }
            },
        }
        i += 1;
    }
    assert(evs.subrange(0, events@.len() as int) =~= evs);
    r
}

} // verus!
