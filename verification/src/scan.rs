//! Uniform-declaration scanner of the modeled driver.
//!
//! When the modeled driver links a program it builds the program's uniform
//! table from the attached shader sources. A declaration is recognized as
//! the token `uniform`, followed by a type token, followed by the uniform's
//! name; tokens are separated by ASCII whitespace or `;`. The scanner is a
//! byte-level state machine, specified as a fold ([`byte_step`]) over the
//! source bytes.

use vstd::prelude::*;

verus! {

/// Largest number of entries the modeled driver keeps in one uniform table,
/// chosen so that every table index fits in an `i32` location.
pub const MAX_UNIFORMS: usize = 0x7fff_fffe;

/// A separator ends the token being scanned: ASCII space, tab, line feed,
/// carriage return, or the statement terminator `;`.
pub open spec fn is_sep(b: u8) -> bool {
    b == 32 || b == 9 || b == 10 || b == 13 || b == 59
}

/// The bytes of the keyword `uniform`.
pub open spec fn uniform_keyword() -> Seq<u8> {
    seq![117u8, 110u8, 105u8, 102u8, 111u8, 114u8, 109u8]
}

/// What the scanner is waiting for next.
#[derive(Clone, Copy, PartialEq, Eq, Structural, Debug)]
pub enum ScanMode {
    /// Waiting for a `uniform` keyword token.
    Seeking,
    /// The next token is the declared type; it is skipped.
    SkipType,
    /// The next token is the uniform's name; it is recorded.
    TakeName,
}

/// Scanner state: the mode, the token collected so far, and the names
/// recorded so far.
pub ghost struct ScanState {
    pub mode: ScanMode,
    pub cur: Seq<u8>,
    pub names: Seq<Seq<u8>>,
}

/// Initial scanner state over an already-accumulated name table.
pub open spec fn scan_init(names: Seq<Seq<u8>>) -> ScanState {
    ScanState { mode: ScanMode::Seeking, cur: Seq::empty(), names }
}

/// Finishing the pending token: dispatch it according to the mode.
pub open spec fn token_step(st: ScanState) -> ScanState {
    if st.cur.len() == 0 {
        st
    } else {
        match st.mode {
            ScanMode::Seeking => ScanState {
                mode: if st.cur == uniform_keyword() {
                    ScanMode::SkipType
                } else {
                    ScanMode::Seeking
                },
                cur: Seq::empty(),
                names: st.names,
            },
            ScanMode::SkipType => ScanState {
                mode: ScanMode::TakeName,
                cur: Seq::empty(),
                names: st.names,
            },
            ScanMode::TakeName => ScanState {
                mode: ScanMode::Seeking,
                cur: Seq::empty(),
                names: if st.names.len() < MAX_UNIFORMS {
                    st.names.push(st.cur)
                } else {
                    st.names
                },
            },
        }
    }
}

/// One byte of input: a separator finishes the pending token, any other
/// byte extends it.
pub open spec fn byte_step(st: ScanState, b: u8) -> ScanState {
    if is_sep(b) {
        token_step(st)
    } else {
        ScanState { mode: st.mode, cur: st.cur.push(b), names: st.names }
    }
}

/// The scanner state after the first `n` bytes of `s`.
pub open spec fn scan_bytes(st: ScanState, s: Seq<u8>, n: int) -> ScanState
    decreases n,
{
    if n <= 0 {
        st
    } else {
        byte_step(scan_bytes(st, s, n - 1), s[n - 1])
    }
}

/// The name table after scanning one whole source on top of the names
/// accumulated from earlier sources. The end of input finishes the pending
/// token like a separator does.
pub open spec fn scan_source(names: Seq<Seq<u8>>, s: Seq<u8>) -> Seq<Seq<u8>> {
    token_step(scan_bytes(scan_init(names), s, s.len() as int)).names
}

/// The scanner never grows a name table past [`MAX_UNIFORMS`].
pub proof fn lemma_scan_bytes_cap(st: ScanState, s: Seq<u8>, n: int)
    requires
        st.names.len() <= MAX_UNIFORMS,
    ensures
        scan_bytes(st, s, n).names.len() <= MAX_UNIFORMS,
    decreases n,
{
    if n > 0 {
        lemma_scan_bytes_cap(st, s, n - 1);
    }
}

/// [`scan_source`] never grows a name table past [`MAX_UNIFORMS`].
pub proof fn lemma_scan_source_cap(names: Seq<Seq<u8>>, s: Seq<u8>)
    requires
        names.len() <= MAX_UNIFORMS,
    ensures
        scan_source(names, s).len() <= MAX_UNIFORMS,
{
    lemma_scan_bytes_cap(scan_init(names), s, s.len() as int);
}

/// The views of a sequence of byte vectors.
pub open spec fn views_of(v: Seq<Vec<u8>>) -> Seq<Seq<u8>> {
    v.map_values(|x: Vec<u8>| x@)
}

proof fn lemma_views_of_push(v: Seq<Vec<u8>>, x: Vec<u8>)
    ensures
        views_of(v.push(x)) == views_of(v).push(x@),
{
    assert(views_of(v.push(x)) =~= views_of(v).push(x@));
}

fn is_sep_exec(b: u8) -> (r: bool)
    ensures
        r == is_sep(b),
{
    b == 32 || b == 9 || b == 10 || b == 13 || b == 59
}

fn is_uniform_keyword(tok: &Vec<u8>) -> (r: bool)
    ensures
        r == (tok@ == uniform_keyword()),
{
    if tok.len() != 7 {
        assert(uniform_keyword().len() == 7);
        return false;
    }
    let r = tok[0] == 117 && tok[1] == 110 && tok[2] == 105 && tok[3] == 102 && tok[4] == 111
        && tok[5] == 114 && tok[6] == 109;
    proof {
        if r {
            assert(tok@ =~= uniform_keyword());
        }
    }
    r
}

/// Scans one source and appends every uniform name it declares to `names`,
/// exactly as [`scan_source`] says.
pub fn scan_source_exec(names: &mut Vec<Vec<u8>>, src: &[u8])
    ensures
        views_of(final(names)@) == scan_source(views_of(old(names)@), src@),
{
    let ghost names0 = views_of(old(names)@);
    let mut mode = ScanMode::Seeking;
    let mut cur: Vec<u8> = Vec::new();
    let mut i: usize = 0;
    while i < src.len()
        invariant
            i <= src@.len(),
            (ScanState { mode, cur: cur@, names: views_of(names@) }) == scan_bytes(
                scan_init(names0),
                src@,
                i as int,
            ),
        decreases src@.len() - i,
    {
        let ghost pre = ScanState { mode, cur: cur@, names: views_of(names@) };
        let b = src[i];
        if is_sep_exec(b) {
            if cur.len() > 0 {
                match mode {
                    ScanMode::Seeking => {
                        if is_uniform_keyword(&cur) {
                            mode = ScanMode::SkipType;
                        }
                        cur.clear();
                    },
                    ScanMode::SkipType => {
                        mode = ScanMode::TakeName;
                        cur.clear();
                    },
                    ScanMode::TakeName => {
                        mode = ScanMode::Seeking;
                        if names.len() < MAX_UNIFORMS {
                            proof {
                                lemma_views_of_push(names@, cur);
                            }
                            names.push(cur);
                            cur = Vec::new();
                        } else {
                            cur.clear();
                        }
                    },
                }
            }
        } else {
            cur.push(b);
        }
        proof {
            assert((ScanState { mode, cur: cur@, names: views_of(names@) }) == byte_step(
                pre,
                src@[i as int],
            ));
        }
        i += 1;
    }
    // End of input finishes the pending token.
    if cur.len() > 0 {
        match mode {
            ScanMode::Seeking => {
                if is_uniform_keyword(&cur) {
                    mode = ScanMode::SkipType;
                }
            },
            ScanMode::SkipType => {
                mode = ScanMode::TakeName;
            },
            ScanMode::TakeName => {
                mode = ScanMode::Seeking;
                if names.len() < MAX_UNIFORMS {
                    proof {
                        lemma_views_of_push(names@, cur);
                    }
                    names.push(cur);
                }
            },
        }
    }
}

} // verus!
