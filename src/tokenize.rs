use vstd::prelude::*;

use crate::text::{chars_of, is_space, is_space_char, string_of, views};

verus! {

/// Where a left-to-right scan stands: the tokens emitted so far, the token being
/// gathered, and the quotation mark that opened the quoted run it is inside, if any.
pub struct ScanState {
    pub tokens: Seq<Seq<char>>,
    pub current: Seq<char>,
    pub quote: Option<char>,
}

pub open spec fn is_quote(c: char) -> bool {
    c == '"' || c == '\''
}

/// One character of the scan. With `quoting` off, quotation marks are ordinary characters.
pub open spec fn scan_step(st: ScanState, c: char, quoting: bool) -> ScanState {
    match st.quote {
        Some(q) => if c == q {
            ScanState { quote: None, ..st }
        } else {
            ScanState { current: st.current.push(c), ..st }
        },
        None => if quoting && is_quote(c) {
            ScanState { quote: Some(c), ..st }
        } else if is_space(c) {
            if st.current.len() > 0 {
                ScanState { tokens: st.tokens.push(st.current), current: Seq::empty(), quote: None }
            } else {
                st
            }
        } else {
            ScanState { current: st.current.push(c), ..st }
        },
    }
}

/// The scan over all of `s`.
pub open spec fn scan(s: Seq<char>, quoting: bool) -> ScanState
    decreases s.len(),
{
    if s.len() == 0 {
        ScanState { tokens: Seq::empty(), current: Seq::empty(), quote: None }
    } else {
        scan_step(scan(s.drop_last(), quoting), s.last(), quoting)
    }
}

/// The tokens of a scan, with the token still being gathered when it is not empty.
pub open spec fn finish(st: ScanState) -> Seq<Seq<char>> {
    if st.current.len() > 0 {
        st.tokens.push(st.current)
    } else {
        st.tokens
    }
}

/// The legacy form: one `[` at the start and one `]` at the end.
pub open spec fn is_bracketed(raw: Seq<char>) -> bool {
    raw.len() >= 2 && raw[0] == '[' && raw.last() == ']'
}

/// The arguments that a configuration string stands for. The bracketed form is split
/// on whitespace and ignores quotation marks; any other form honours them.
pub open spec fn tokens_of(raw: Seq<char>) -> Seq<Seq<char>> {
    if raw.len() == 0 {
        Seq::empty()
    } else if is_bracketed(raw) {
        finish(scan(raw.subrange(1, raw.len() - 1), false))
    } else {
        finish(scan(raw, true))
    }
}

/// The legacy string `[-G Ninja]` stands for the arguments `-G` and `Ninja`.
pub(crate) proof fn lemma_bracketed_generator_tokens()
    ensures
        tokens_of("[-G Ninja]"@) == seq!["-G"@, "Ninja"@],
{
    reveal_strlit("[-G Ninja]");
    reveal_strlit("-G");
    reveal_strlit("Ninja");
    let raw = "[-G Ninja]"@;
    let inner = raw.subrange(1, raw.len() - 1);
    assert(inner =~= seq!['-', 'G', ' ', 'N', 'i', 'n', 'j', 'a']);
    assert(scan(Seq::<char>::empty(), false) == (ScanState { tokens: Seq::empty(), current: Seq::empty(), quote: None }));
    assert(seq!['-'].drop_last() =~= Seq::<char>::empty());
    assert(seq!['-'].last() == '-');
    assert(Seq::<char>::empty().push('-') =~= seq!['-']);
    assert(scan(seq!['-'], false) =~~= (ScanState { tokens: Seq::<Seq<char>>::empty(), current: seq!['-'], quote: None }));
    assert(seq!['-', 'G'].drop_last() =~= seq!['-']);
    assert(seq!['-', 'G'].last() == 'G');
    assert(seq!['-'].push('G') =~= seq!['-', 'G']);
    assert(scan(seq!['-', 'G'], false) =~~= (ScanState { tokens: Seq::<Seq<char>>::empty(), current: seq!['-', 'G'], quote: None }));
    assert(seq!['-', 'G', ' '].drop_last() =~= seq!['-', 'G']);
    assert(seq!['-', 'G', ' '].last() == ' ');
    assert(scan(seq!['-', 'G', ' '], false) =~~= (ScanState { tokens: seq![seq!['-', 'G']], current: Seq::<char>::empty(), quote: None }));
    assert(seq!['-', 'G', ' ', 'N'].drop_last() =~= seq!['-', 'G', ' ']);
    assert(seq!['-', 'G', ' ', 'N'].last() == 'N');
    assert(Seq::<char>::empty().push('N') =~= seq!['N']);
    assert(scan(seq!['-', 'G', ' ', 'N'], false) =~~= (ScanState { tokens: seq![seq!['-', 'G']], current: seq!['N'], quote: None }));
    assert(seq!['-', 'G', ' ', 'N', 'i'].drop_last() =~= seq!['-', 'G', ' ', 'N']);
    assert(seq!['-', 'G', ' ', 'N', 'i'].last() == 'i');
    assert(seq!['N'].push('i') =~= seq!['N', 'i']);
    assert(scan(seq!['-', 'G', ' ', 'N', 'i'], false) =~~= (ScanState { tokens: seq![seq!['-', 'G']], current: seq!['N', 'i'], quote: None }));
    assert(seq!['-', 'G', ' ', 'N', 'i', 'n'].drop_last() =~= seq!['-', 'G', ' ', 'N', 'i']);
    assert(seq!['-', 'G', ' ', 'N', 'i', 'n'].last() == 'n');
    assert(seq!['N', 'i'].push('n') =~= seq!['N', 'i', 'n']);
    assert(scan(seq!['-', 'G', ' ', 'N', 'i', 'n'], false) =~~= (ScanState { tokens: seq![seq!['-', 'G']], current: seq!['N', 'i', 'n'], quote: None }));
    assert(seq!['-', 'G', ' ', 'N', 'i', 'n', 'j'].drop_last() =~= seq!['-', 'G', ' ', 'N', 'i', 'n']);
    assert(seq!['-', 'G', ' ', 'N', 'i', 'n', 'j'].last() == 'j');
    assert(seq!['N', 'i', 'n'].push('j') =~= seq!['N', 'i', 'n', 'j']);
    assert(scan(seq!['-', 'G', ' ', 'N', 'i', 'n', 'j'], false) =~~= (ScanState { tokens: seq![seq!['-', 'G']], current: seq!['N', 'i', 'n', 'j'], quote: None }));
    assert(seq!['-', 'G', ' ', 'N', 'i', 'n', 'j', 'a'].drop_last() =~= seq!['-', 'G', ' ', 'N', 'i', 'n', 'j']);
    assert(seq!['-', 'G', ' ', 'N', 'i', 'n', 'j', 'a'].last() == 'a');
    assert(seq!['N', 'i', 'n', 'j'].push('a') =~= seq!['N', 'i', 'n', 'j', 'a']);
    assert(scan(seq!['-', 'G', ' ', 'N', 'i', 'n', 'j', 'a'], false) =~~= (ScanState { tokens: seq![seq!['-', 'G']], current: seq!['N', 'i', 'n', 'j', 'a'], quote: None }));
    assert(inner =~= seq!['-', 'G', ' ', 'N', 'i', 'n', 'j', 'a']);
    assert("-G"@ =~= seq!['-', 'G']);
    assert("Ninja"@ =~= seq!['N', 'i', 'n', 'j', 'a']);
    assert(raw.len() == 10 && raw[0] == '[' && raw.last() == ']');
    assert(is_bracketed(raw));
    assert(tokens_of(raw) == finish(scan(inner, false)));
    assert(tokens_of(raw) =~= seq!["-G"@, "Ninja"@]);
    }

/// Scans `cs[lo..hi]` and returns its tokens.
fn scan_range(cs: &Vec<char>, lo: usize, hi: usize, quoting: bool) -> (r: Vec<String>)
    requires
        lo <= hi <= cs@.len(),
    ensures
        views(r@) == finish(scan(cs@.subrange(lo as int, hi as int), quoting)),
{
    let mut tokens: Vec<String> = Vec::new();
    let mut current: Vec<char> = Vec::new();
    let mut quote: Option<char> = None;
    let mut i: usize = lo;
    assert(views(tokens@) =~= Seq::<Seq<char>>::empty());
    assert(current@ =~= Seq::<char>::empty());
    assert(cs@.subrange(lo as int, lo as int) =~= Seq::<char>::empty());
    while i < hi
        invariant
            lo <= i <= hi <= cs@.len(),
            scan(cs@.subrange(lo as int, i as int), quoting) == (ScanState {
                tokens: views(tokens@),
                current: current@,
                quote,
            }),
        decreases hi - i,
    {
        let c = cs[i];
        proof {
            let s = cs@.subrange(lo as int, i + 1);
            assert(s.drop_last() =~= cs@.subrange(lo as int, i as int));
            assert(s.last() == c);
        }
        match quote {
            Some(q) => {
                if c == q {
                    quote = None;
                } else {
                    current.push(c);
                }
            },
            None => {
                if quoting && (c == '"' || c == '\'') {
                    quote = Some(c);
                } else if is_space_char(c) {
                    if current.len() > 0 {
                        let t = string_of(&current);
                        let ghost prev = tokens@;
                        tokens.push(t);
                        current = Vec::new();
                        assert(views(tokens@) =~= views(prev).push(t@));
                    }
                } else {
                    current.push(c);
                }
            },
        }
        i += 1;
    }
    assert(cs@.subrange(lo as int, hi as int) == cs@.subrange(lo as int, i as int));
    if current.len() > 0 {
        let t = string_of(&current);
        let ghost prev = tokens@;
        tokens.push(t);
        assert(views(tokens@) =~= views(prev).push(t@));
    }
    tokens
}

/// Splits a configuration string into the arguments it stands for.
///
/// The empty string gives no arguments. A string wrapped in one `[` and one `]` is the
/// legacy form: the brackets are dropped and the rest is split on runs of whitespace,
/// quotation marks included as ordinary characters. Any other string is scanned with
/// quoting: `"` or `'` opens a quoted run that the same mark closes; inside it every
/// character, whitespace too, belongs to the current argument; the marks themselves are
/// dropped, so adjacent quoted runs join into one argument. Outside quotes, whitespace
/// ends the current argument, if one has begun. A quote left open runs to the end.
pub fn tokenize(raw: &str) -> (r: Vec<String>)
    ensures
        views(r@) == tokens_of(raw@),
{
    let cs = chars_of(raw);
    let n = cs.len();
    if n == 0 {
        let r: Vec<String> = Vec::new();
        assert(views(r@) =~= Seq::<Seq<char>>::empty());
        r
    } else if n >= 2 && cs[0] == '[' && cs[n - 1] == ']' {
        scan_range(&cs, 1, n - 1, false)
    } else {
        let r = scan_range(&cs, 0, n, true);
        assert(cs@.subrange(0, n as int) =~= raw@);
        r
    }
}

} // verus!
