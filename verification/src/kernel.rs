//! The kernel-description compiler.
//!
//! A launch descriptor is a byte string of the form
//! `threads = INT ("," "block" "=" INT)? "," IDENT "{" STATEMENTS "}"`.
//! [`GpuParallelInput::parse`] parses it; [`gpu_parallel`] compiles it
//! into a [`KernelLaunchIR`] record, the data-only form a dispatcher
//! consumes. The body statements are captured as literal text,
//! whitespace-normalized: one space between adjacent tokens, none at the
//! ends. The whole grammar is rendered by the spec function
//! [`spec_parse`], and the parser returns exactly what it describes, for
//! every input.

use vstd::prelude::*;

verus! {

/// Why a launch descriptor was rejected.
#[derive(Clone, Copy, Debug, PartialEq, Eq, Structural)]
pub enum ParseError {
    /// The descriptor does not begin with the `threads` keyword.
    MissingThreads,
    /// A `=` was expected after the `threads` keyword.
    ExpectedEquals,
    /// The thread count is missing, not an integer, or too large.
    InvalidThreadCount,
    /// A `,` separator was expected.
    ExpectedComma,
    /// The block size is missing, not an integer, or too large.
    InvalidBlockSize,
    /// The loop-binder identifier is missing.
    MissingBinder,
    /// A `{` was expected to open the body.
    ExpectedOpenBrace,
    /// The body's braces are unbalanced.
    UnbalancedBraces,
    /// Text follows the closing brace of the body.
    TrailingInput,
}

/// The compiled form of a kernel description: total invocation count,
/// workgroup size (0 means unspecified, the runtime may choose), and the
/// body statements as normalized literal text.
pub struct KernelLaunchIR {
    /// Total logical invocations requested.
    pub threads: u32,
    /// Workgroup size; 0 means unspecified.
    pub block_size: u32,
    /// Normalized source text of the body statements.
    pub body: Vec<u8>,
}

/// A parsed launch descriptor, before compilation to IR.
pub struct GpuParallelInput {
    /// Total logical invocations requested.
    pub threads: u32,
    /// Workgroup size, if the descriptor gave one.
    pub block_size: Option<u32>,
    /// Name of the per-invocation index binder.
    pub ident: Vec<u8>,
    /// Normalized source text of the body statements.
    pub body: Vec<u8>,
}

/// The mathematical value of a parsed launch descriptor.
pub ghost struct ParsedLaunch {
    /// Total logical invocations requested.
    pub threads: u32,
    /// Workgroup size, if the descriptor gave one.
    pub block_size: Option<u32>,
    /// Name of the per-invocation index binder.
    pub ident: Seq<u8>,
    /// Normalized source text of the body statements.
    pub body: Seq<u8>,
}

impl View for GpuParallelInput {
    type V = ParsedLaunch;

    open spec fn view(&self) -> ParsedLaunch {
        ParsedLaunch {
            threads: self.threads,
            block_size: self.block_size,
            ident: self.ident@,
            body: self.body@,
        }
    }
}

/// True of the whitespace bytes: space, tab, line feed, carriage return.
pub open spec fn is_ws(c: u8) -> bool {
    c == 0x20 || c == 0x09 || c == 0x0a || c == 0x0d
}

/// True of the decimal digits `0` to `9`.
pub open spec fn is_digit(c: u8) -> bool {
    0x30 <= c <= 0x39
}

/// True of the letters `A` to `Z` and `a` to `z`.
pub open spec fn is_alpha(c: u8) -> bool {
    (0x41 <= c <= 0x5a) || (0x61 <= c <= 0x7a)
}

/// True of the bytes that continue a word token: letters, digits, `_`.
pub open spec fn is_word_char(c: u8) -> bool {
    is_alpha(c) || is_digit(c) || c == 0x5f
}

/// True of the bytes that can start an identifier: letters and `_`.
pub open spec fn is_ident_start(c: u8) -> bool {
    is_alpha(c) || c == 0x5f
}

/// True of the bytes that continue an operator token:
/// `= + - * / % ! < > & | ^ ~ . ? : @ # $`.
pub open spec fn is_op_char(c: u8) -> bool {
    ||| c == 0x3d
    ||| c == 0x2b
    ||| c == 0x2d
    ||| c == 0x2a
    ||| c == 0x2f
    ||| c == 0x25
    ||| c == 0x21
    ||| c == 0x3c
    ||| c == 0x3e
    ||| c == 0x26
    ||| c == 0x7c
    ||| c == 0x5e
    ||| c == 0x7e
    ||| c == 0x2e
    ||| c == 0x3f
    ||| c == 0x3a
    ||| c == 0x40
    ||| c == 0x23
    ||| c == 0x24
}

/// The bytes of the keyword `threads`.
pub open spec fn kw_threads() -> Seq<u8> {
    seq![0x74u8, 0x68, 0x72, 0x65, 0x61, 0x64, 0x73]
}

/// The bytes of the keyword `block`.
pub open spec fn kw_block() -> Seq<u8> {
    seq![0x62u8, 0x6c, 0x6f, 0x63, 0x6b]
}

/// The first position at or after `i` holding a non-whitespace byte, or
/// the end of `s`.
pub open spec fn skip_ws(s: Seq<u8>, i: int) -> int
    decreases s.len() - i,
{
    if 0 <= i < s.len() && is_ws(s[i]) {
        skip_ws(s, i + 1)
    } else {
        i
    }
}

/// The end of the word token starting at `i`: the first position at or
/// after `i` holding a byte that does not continue a word.
pub open spec fn word_end(s: Seq<u8>, i: int) -> int
    decreases s.len() - i,
{
    if 0 <= i < s.len() && is_word_char(s[i]) {
        word_end(s, i + 1)
    } else {
        i
    }
}

/// The end of the digit run starting at `i`.
pub open spec fn digit_end(s: Seq<u8>, i: int) -> int
    decreases s.len() - i,
{
    if 0 <= i < s.len() && is_digit(s[i]) {
        digit_end(s, i + 1)
    } else {
        i
    }
}

/// The decimal value of a run of digit bytes.
pub open spec fn digits_val(s: Seq<u8>) -> nat
    decreases s.len(),
{
    if s.len() == 0 {
        0
    } else {
        digits_val(s.drop_last()) * 10 + (s.last() - 0x30) as nat
    }
}

/// The position of the `}` matching an already-open brace when scanning
/// from `i` with `depth` braces open beyond it, or `None` if the braces
/// are unbalanced.
pub open spec fn find_close(s: Seq<u8>, i: int, depth: nat) -> Option<int>
    decreases s.len() - i,
{
    if !(0 <= i < s.len()) {
        None
    } else if s[i] == 0x7b {
        find_close(s, i + 1, depth + 1)
    } else if s[i] == 0x7d {
        if depth == 0 {
            Some(i)
        } else {
            find_close(s, i + 1, (depth - 1) as nat)
        }
    } else {
        find_close(s, i + 1, depth)
    }
}

/// Normalization state: what the last emitted byte belonged to.
#[derive(Clone, Copy, Debug, PartialEq, Eq, Structural)]
pub enum NormSt {
    /// Nothing emitted yet.
    Start,
    /// The last emitted byte continued a word token.
    Word,
    /// The last emitted byte continued an operator token.
    Op,
    /// The last emitted byte was a one-byte token.
    Other,
    /// Whitespace was read since the last emitted byte.
    Gap,
}

/// The normalized text of `s` from position `i` in state `st`: every
/// non-whitespace byte is kept, and one space stands wherever a new
/// token begins after the first. A byte continues the current token when
/// no whitespace intervenes and it is of the same class, word or
/// operator, as the byte before it; every other byte is a token of its
/// own.
pub open spec fn norm_from(s: Seq<u8>, i: int, st: NormSt) -> Seq<u8>
    decreases s.len() - i,
{
    if !(0 <= i < s.len()) {
        Seq::empty()
    } else if is_ws(s[i]) {
        norm_from(s, i + 1, if st is Start { NormSt::Start } else { NormSt::Gap })
    } else {
        let c = s[i];
        let cont = (st is Word && is_word_char(c)) || (st is Op && is_op_char(c));
        let sp: Seq<u8> = if st is Start || cont { Seq::empty() } else { seq![0x20u8] };
        let nst = if is_word_char(c) {
            NormSt::Word
        } else if is_op_char(c) {
            NormSt::Op
        } else {
            NormSt::Other
        };
        sp + seq![c] + norm_from(s, i + 1, nst)
    }
}

/// The whitespace-normalized text of `s`.
pub open spec fn normalize(s: Seq<u8>) -> Seq<u8> {
    norm_from(s, 0, NormSt::Start)
}

/// What parsing a launch descriptor `s` yields: the grammar
/// `threads = INT ("," "block" "=" INT)? "," IDENT "{" STATEMENTS "}"`,
/// with the body captured as normalized text.
pub open spec fn spec_parse(s: Seq<u8>) -> Result<ParsedLaunch, ParseError> {
    let i0 = skip_ws(s, 0);
    if !(i0 < s.len() && is_ident_start(s[i0])) {
        Err(ParseError::MissingThreads)
    } else {
        let i1 = word_end(s, i0);
        if s.subrange(i0, i1) != kw_threads() {
            Err(ParseError::MissingThreads)
        } else {
            let i2 = skip_ws(s, i1);
            if !(i2 < s.len() && s[i2] == 0x3d) {
                Err(ParseError::ExpectedEquals)
            } else {
                let i3 = skip_ws(s, i2 + 1);
                if !(i3 < s.len() && is_digit(s[i3])) {
                    Err(ParseError::InvalidThreadCount)
                } else {
                    let i4 = digit_end(s, i3);
                    if digits_val(s.subrange(i3, i4)) > u32::MAX {
                        Err(ParseError::InvalidThreadCount)
                    } else {
                        let threads = digits_val(s.subrange(i3, i4)) as u32;
                        let i5 = skip_ws(s, i4);
                        if !(i5 < s.len() && s[i5] == 0x2c) {
                            Err(ParseError::ExpectedComma)
                        } else {
                            spec_parse_after_threads(s, threads, i5 + 1)
                        }
                    }
                }
            }
        }
    }
}

/// The rest of the grammar after `threads = INT ","`: an optional
/// `block = INT ","` clause, then the binder and the body.
pub open spec fn spec_parse_after_threads(s: Seq<u8>, threads: u32, i: int) -> Result<
    ParsedLaunch,
    ParseError,
> {
    let i6 = skip_ws(s, i);
    if !(i6 < s.len() && is_ident_start(s[i6])) {
        Err(ParseError::MissingBinder)
    } else {
        let i7 = word_end(s, i6);
        let w = s.subrange(i6, i7);
        let i8 = skip_ws(s, i7);
        if w == kw_block() && i8 < s.len() && s[i8] == 0x3d {
            let j0 = skip_ws(s, i8 + 1);
            if !(j0 < s.len() && is_digit(s[j0])) {
                Err(ParseError::InvalidBlockSize)
            } else {
                let j1 = digit_end(s, j0);
                if digits_val(s.subrange(j0, j1)) > u32::MAX {
                    Err(ParseError::InvalidBlockSize)
                } else {
                    let bs = digits_val(s.subrange(j0, j1)) as u32;
                    let j2 = skip_ws(s, j1);
                    if !(j2 < s.len() && s[j2] == 0x2c) {
                        Err(ParseError::ExpectedComma)
                    } else {
                        spec_parse_binder(s, threads, Some(bs), j2 + 1)
                    }
                }
            }
        } else {
            spec_parse_body(s, threads, None, w, i7)
        }
    }
}

/// The binder identifier, then the body.
pub open spec fn spec_parse_binder(s: Seq<u8>, threads: u32, block_size: Option<u32>, i: int)
    -> Result<ParsedLaunch, ParseError> {
    let k0 = skip_ws(s, i);
    if !(k0 < s.len() && is_ident_start(s[k0])) {
        Err(ParseError::MissingBinder)
    } else {
        let k1 = word_end(s, k0);
        spec_parse_body(s, threads, block_size, s.subrange(k0, k1), k1)
    }
}

/// The braced body: `{` STATEMENTS `}` and nothing after it. The body
/// text is everything between the brace and its match, normalized.
pub open spec fn spec_parse_body(
    s: Seq<u8>,
    threads: u32,
    block_size: Option<u32>,
    ident: Seq<u8>,
    i: int,
) -> Result<ParsedLaunch, ParseError> {
    let b0 = skip_ws(s, i);
    if !(b0 < s.len() && s[b0] == 0x7b) {
        Err(ParseError::ExpectedOpenBrace)
    } else {
        match find_close(s, b0 + 1, 0) {
            None => Err(ParseError::UnbalancedBraces),
            Some(c) => {
                let e = skip_ws(s, c + 1);
                if e < s.len() {
                    Err(ParseError::TrailingInput)
                } else {
                    Ok(
                        ParsedLaunch {
                            threads,
                            block_size,
                            ident,
                            body: normalize(s.subrange(b0 + 1, c)),
                        },
                    )
                }
            },
        }
    }
}

/// A digit run's end never lies before its start.
proof fn lemma_digit_end_lb(s: Seq<u8>, i: int)
    requires
        0 <= i <= s.len(),
    ensures
        i <= digit_end(s, i) <= s.len(),
    decreases s.len() - i,
{
    if i < s.len() && is_digit(s[i]) {
        lemma_digit_end_lb(s, i + 1);
    }
}

fn is_ws_x(c: u8) -> (b: bool)
    ensures
        b == is_ws(c),
{
    c == 0x20 || c == 0x09 || c == 0x0a || c == 0x0d
}

fn is_digit_x(c: u8) -> (b: bool)
    ensures
        b == is_digit(c),
{
    0x30 <= c && c <= 0x39
}

fn is_word_char_x(c: u8) -> (b: bool)
    ensures
        b == is_word_char(c),
{
    (0x41 <= c && c <= 0x5a) || (0x61 <= c && c <= 0x7a) || (0x30 <= c && c <= 0x39) || c == 0x5f
}

fn is_ident_start_x(c: u8) -> (b: bool)
    ensures
        b == is_ident_start(c),
{
    (0x41 <= c && c <= 0x5a) || (0x61 <= c && c <= 0x7a) || c == 0x5f
}

fn is_op_char_x(c: u8) -> (b: bool)
    ensures
        b == is_op_char(c),
{
    c == 0x3d || c == 0x2b || c == 0x2d || c == 0x2a || c == 0x2f || c == 0x25 || c == 0x21
        || c == 0x3c || c == 0x3e || c == 0x26 || c == 0x7c || c == 0x5e || c == 0x7e || c == 0x2e
        || c == 0x3f || c == 0x3a || c == 0x40 || c == 0x23 || c == 0x24
}

fn skip_ws_x(s: &Vec<u8>, i: usize) -> (j: usize)
    requires
        i <= s@.len(),
    ensures
        j == skip_ws(s@, i as int),
        i <= j <= s@.len(),
        j < s@.len() ==> !is_ws(s@[j as int]),
{
    let n = s.len();
    let mut j: usize = i;
    while j < n && is_ws_x(s[j])
        invariant
            i <= j <= n,
            n == s@.len(),
            skip_ws(s@, i as int) == skip_ws(s@, j as int),
        decreases n - j,
    {
        j += 1;
    }
    j
}

fn word_end_x(s: &Vec<u8>, i: usize) -> (j: usize)
    requires
        i <= s@.len(),
    ensures
        j == word_end(s@, i as int),
        i <= j <= s@.len(),
{
    let n = s.len();
    let mut j: usize = i;
    while j < n && is_word_char_x(s[j])
        invariant
            i <= j <= n,
            n == s@.len(),
            word_end(s@, i as int) == word_end(s@, j as int),
        decreases n - j,
    {
        j += 1;
    }
    j
}

fn digit_end_x(s: &Vec<u8>, i: usize) -> (j: usize)
    requires
        i <= s@.len(),
    ensures
        j == digit_end(s@, i as int),
        i <= j <= s@.len(),
        forall|k: int| i <= k < j ==> is_digit(#[trigger] s@[k]),
{
    let n = s.len();
    let mut j: usize = i;
    while j < n && is_digit_x(s[j])
        invariant
            i <= j <= n,
            n == s@.len(),
            digit_end(s@, i as int) == digit_end(s@, j as int),
            forall|k: int| i <= k < j ==> is_digit(#[trigger] s@[k]),
        decreases n - j,
    {
        j += 1;
    }
    j
}

/// Scans the digit run starting at `i` and returns its decimal value,
/// or `None` when the value exceeds `u32::MAX`, together with the end of
/// the run.
fn scan_int(s: &Vec<u8>, i: usize) -> (r: (Option<u32>, usize))
    requires
        i < s@.len(),
        is_digit(s@[i as int]),
    ensures
        r.1 == digit_end(s@, i as int),
        i < r.1 <= s@.len(),
        (match r.0 {
            Some(v) => v == digits_val(s@.subrange(i as int, r.1 as int)) && digits_val(
                s@.subrange(i as int, r.1 as int),
            ) <= u32::MAX,
            None => digits_val(s@.subrange(i as int, r.1 as int)) > u32::MAX,
        }),
{
    let j = digit_end_x(s, i);
    assert(j > i) by {
        assert(digit_end(s@, i as int) == digit_end(s@, i + 1));
        lemma_digit_end_lb(s@, i + 1);
    }
    let mut val: u32 = 0;
    let mut overflow = false;
    let mut cur: usize = i;
    assert(s@.subrange(i as int, i as int) =~= Seq::<u8>::empty());
    while cur < j
        invariant
            i <= cur <= j <= s@.len(),
            j == digit_end(s@, i as int),
            forall|k: int| i <= k < j ==> is_digit(#[trigger] s@[k]),
            !overflow ==> val == digits_val(s@.subrange(i as int, cur as int)) && digits_val(
                s@.subrange(i as int, cur as int),
            ) <= u32::MAX,
            overflow ==> digits_val(s@.subrange(i as int, cur as int)) > u32::MAX,
        decreases j - cur,
    {
        let c = s[cur];
        let d: u32 = (c - 0x30) as u32;
        proof {
            assert(s@.subrange(i as int, cur + 1).drop_last() =~= s@.subrange(
                i as int,
                cur as int,
            ));
            assert(s@.subrange(i as int, cur + 1).last() == s@[cur as int]);
            assert(digits_val(s@.subrange(i as int, cur + 1)) == digits_val(
                s@.subrange(i as int, cur as int),
            ) * 10 + (c - 0x30) as nat);
        }
        if !overflow {
            if val <= (u32::MAX - d) / 10 {
                proof {
                    vstd::arithmetic::div_mod::lemma_fundamental_div_mod(
                        (u32::MAX - d) as int,
                        10,
                    );
                    vstd::arithmetic::div_mod::lemma_mod_bound((u32::MAX - d) as int, 10);
                }
                val = val * 10 + d;
            } else {
                proof {
                    vstd::arithmetic::div_mod::lemma_fundamental_div_mod(
                        (u32::MAX - d) as int,
                        10,
                    );
                    vstd::arithmetic::div_mod::lemma_mod_bound((u32::MAX - d) as int, 10);
                }
                overflow = true;
            }
        }
        cur += 1;
    }
    if overflow {
        (None, j)
    } else {
        (Some(val), j)
    }
}

/// True when the bytes of `s` in `[i, j)` spell `threads`.
fn region_is_threads(s: &Vec<u8>, i: usize, j: usize) -> (b: bool)
    requires
        i <= j <= s@.len(),
    ensures
        b == (s@.subrange(i as int, j as int) == kw_threads()),
{
    if j - i != 7 {
        assert(s@.subrange(i as int, j as int).len() == j - i);
        assert(kw_threads().len() == 7);
        return false;
    }
    let b = s[i] == 0x74 && s[i + 1] == 0x68 && s[i + 2] == 0x72 && s[i + 3] == 0x65 && s[i + 4]
        == 0x61 && s[i + 5] == 0x64 && s[i + 6] == 0x73;
    if b {
        assert(s@.subrange(i as int, j as int) =~= kw_threads());
    } else {
        assert(s@.subrange(i as int, j as int) != kw_threads()) by {
            let r = s@.subrange(i as int, j as int);
            assert(r[0] == s@[i as int] && r[1] == s@[i + 1] && r[2] == s@[i + 2] && r[3] == s@[i
                + 3] && r[4] == s@[i + 4] && r[5] == s@[i + 5] && r[6] == s@[i + 6]);
        }
    }
    b
}

/// True when the bytes of `s` in `[i, j)` spell `block`.
fn region_is_block(s: &Vec<u8>, i: usize, j: usize) -> (b: bool)
    requires
        i <= j <= s@.len(),
    ensures
        b == (s@.subrange(i as int, j as int) == kw_block()),
{
    if j - i != 5 {
        assert(s@.subrange(i as int, j as int).len() == j - i);
        assert(kw_block().len() == 5);
        return false;
    }
    let b = s[i] == 0x62 && s[i + 1] == 0x6c && s[i + 2] == 0x6f && s[i + 3] == 0x63 && s[i + 4]
        == 0x6b;
    if b {
        assert(s@.subrange(i as int, j as int) =~= kw_block());
    } else {
        assert(s@.subrange(i as int, j as int) != kw_block()) by {
            let r = s@.subrange(i as int, j as int);
            assert(r[0] == s@[i as int] && r[1] == s@[i + 1] && r[2] == s@[i + 2] && r[3] == s@[i
                + 3] && r[4] == s@[i + 4]);
        }
    }
    b
}

/// Copies the bytes of `s` in `[i, j)` into a fresh vector.
fn copy_region(s: &Vec<u8>, i: usize, j: usize) -> (out: Vec<u8>)
    requires
        i <= j <= s@.len(),
    ensures
        out@ == s@.subrange(i as int, j as int),
{
    let mut out: Vec<u8> = Vec::new();
    let mut k: usize = i;
    while k < j
        invariant
            i <= k <= j <= s@.len(),
            out@ == s@.subrange(i as int, k as int),
        decreases j - k,
    {
        let c = s[k];
        out.push(c);
        assert(out@ =~= s@.subrange(i as int, k + 1));
        k += 1;
    }
    out
}

/// Scans from `start` for the `}` matching an already-open brace,
/// counting nested pairs.
fn find_close_x(s: &Vec<u8>, start: usize) -> (r: Option<usize>)
    requires
        start <= s@.len(),
    ensures
        (match r {
            Some(p) => Some(p as int) == find_close(s@, start as int, 0) && start <= p < s@.len(),
            None => find_close(s@, start as int, 0) is None,
        }),
{
    let n = s.len();
    let mut i: usize = start;
    let mut depth: usize = 0;
    while i < n
        invariant
            start <= i <= n,
            n == s@.len(),
            depth <= i - start,
            find_close(s@, start as int, 0) == find_close(s@, i as int, depth as nat),
        decreases n - i,
    {
        let c = s[i];
        if c == 0x7b {
            depth += 1;
        } else if c == 0x7d {
            if depth == 0 {
                return Some(i);
            }
            depth -= 1;
        }
        i += 1;
    }
    None
}

/// Whitespace-normalizes the bytes of `s` in `[lo, hi)`: every token is
/// kept, with exactly one space between adjacent tokens.
fn normalize_region(s: &Vec<u8>, lo: usize, hi: usize) -> (out: Vec<u8>)
    requires
        lo <= hi <= s@.len(),
    ensures
        out@ == normalize(s@.subrange(lo as int, hi as int)),
{
    let ghost sub = s@.subrange(lo as int, hi as int);
    let mut out: Vec<u8> = Vec::new();
    let mut st = NormSt::Start;
    let mut i: usize = lo;
    while i < hi
        invariant
            lo <= i <= hi <= s@.len(),
            sub == s@.subrange(lo as int, hi as int),
            norm_from(sub, 0, NormSt::Start) == out@ + norm_from(sub, i - lo, st),
        decreases hi - i,
    {
        let c = s[i];
        assert(sub[i - lo] == c);
        if is_ws_x(c) {
            let nst = match st {
                NormSt::Start => NormSt::Start,
                _ => NormSt::Gap,
            };
            assert(norm_from(sub, i - lo, st) == norm_from(sub, i + 1 - lo, nst));
            st = nst;
        } else {
            let is_w = is_word_char_x(c);
            let is_o = is_op_char_x(c);
            let cont = (matches!(st, NormSt::Word) && is_w) || (matches!(st, NormSt::Op) && is_o);
            let start = matches!(st, NormSt::Start);
            let nst = if is_w {
                NormSt::Word
            } else if is_o {
                NormSt::Op
            } else {
                NormSt::Other
            };
            let ghost out_before = out@;
            if !start && !cont {
                out.push(0x20u8);
            }
            out.push(c);
            proof {
                let sp: Seq<u8> = if start || cont {
                    Seq::empty()
                } else {
                    seq![0x20u8]
                };
                assert(norm_from(sub, i - lo, st) == sp + seq![c] + norm_from(sub, i + 1 - lo, nst));
                assert(out@ =~= out_before + sp + seq![c]);
                assert(out_before + (sp + seq![c] + norm_from(sub, i + 1 - lo, nst)) =~= out@
                    + norm_from(sub, i + 1 - lo, nst));
            }
            st = nst;
        }
        i += 1;
    }
    assert(norm_from(sub, hi - lo, st) == Seq::<u8>::empty());
    assert(out@ =~= out@ + Seq::<u8>::empty());
    out
}

/// Parses the braced body and checks that nothing follows it.
fn parse_body_x(
    s: &Vec<u8>,
    threads: u32,
    block_size: Option<u32>,
    ident: Vec<u8>,
    i: usize,
) -> (r: Result<GpuParallelInput, ParseError>)
    requires
        i <= s@.len(),
    ensures
        (match r {
            Ok(g) => Ok::<ParsedLaunch, ParseError>(g@),
            Err(e) => Err(e),
        }) == spec_parse_body(s@, threads, block_size, ident@, i as int),
{
    let n = s.len();
    let b0 = skip_ws_x(s, i);
    if !(b0 < n && s[b0] == 0x7b) {
        return Err(ParseError::ExpectedOpenBrace);
    }
    match find_close_x(s, b0 + 1) {
        None => Err(ParseError::UnbalancedBraces),
        Some(c) => {
            let e = skip_ws_x(s, c + 1);
            if e < n {
                Err(ParseError::TrailingInput)
            } else {
                let body = normalize_region(s, b0 + 1, c);
                Ok(GpuParallelInput { threads, block_size, ident, body })
            }
        },
    }
}

/// Parses the binder identifier, then the body.
fn parse_binder_x(s: &Vec<u8>, threads: u32, block_size: Option<u32>, i: usize) -> (r: Result<
    GpuParallelInput,
    ParseError,
>)
    requires
        i <= s@.len(),
    ensures
        (match r {
            Ok(g) => Ok::<ParsedLaunch, ParseError>(g@),
            Err(e) => Err(e),
        }) == spec_parse_binder(s@, threads, block_size, i as int),
{
    let n = s.len();
    let k0 = skip_ws_x(s, i);
    if !(k0 < n && is_ident_start_x(s[k0])) {
        return Err(ParseError::MissingBinder);
    }
    let k1 = word_end_x(s, k0);
    let ident = copy_region(s, k0, k1);
    parse_body_x(s, threads, block_size, ident, k1)
}

/// Parses what follows `threads = INT ","`: the optional block clause,
/// the binder, and the body.
fn parse_after_threads_x(s: &Vec<u8>, threads: u32, i: usize) -> (r: Result<
    GpuParallelInput,
    ParseError,
>)
    requires
        i <= s@.len(),
    ensures
        (match r {
            Ok(g) => Ok::<ParsedLaunch, ParseError>(g@),
            Err(e) => Err(e),
        }) == spec_parse_after_threads(s@, threads, i as int),
{
    let n = s.len();
    let i6 = skip_ws_x(s, i);
    if !(i6 < n && is_ident_start_x(s[i6])) {
        return Err(ParseError::MissingBinder);
    }
    let i7 = word_end_x(s, i6);
    let is_block_kw = region_is_block(s, i6, i7);
    let i8 = skip_ws_x(s, i7);
    if is_block_kw && i8 < n && s[i8] == 0x3d {
        let j0 = skip_ws_x(s, i8 + 1);
        if !(j0 < n && is_digit_x(s[j0])) {
            return Err(ParseError::InvalidBlockSize);
        }
        let (scanned, j1) = scan_int(s, j0);
        match scanned {
            None => Err(ParseError::InvalidBlockSize),
            Some(bs) => {
                let j2 = skip_ws_x(s, j1);
                if !(j2 < n && s[j2] == 0x2c) {
                    Err(ParseError::ExpectedComma)
                } else {
                    parse_binder_x(s, threads, Some(bs), j2 + 1)
                }
            },
        }
    } else {
        let ident = copy_region(s, i6, i7);
        parse_body_x(s, threads, None, ident, i7)
    }
}

impl GpuParallelInput {
    /// Parses a launch descriptor. Returns exactly what the grammar
    /// [`spec_parse`] describes, for every input: the parsed record on a
    /// well-formed descriptor, and the first grammar violation
    /// otherwise.
    pub fn parse(input: &Vec<u8>) -> (r: Result<GpuParallelInput, ParseError>)
        ensures
            (match r {
                Ok(g) => Ok::<ParsedLaunch, ParseError>(g@),
                Err(e) => Err(e),
            }) == spec_parse(input@),
    {
        let s = input;
        let n = s.len();
        let i0 = skip_ws_x(s, 0);
        if !(i0 < n && is_ident_start_x(s[i0])) {
            return Err(ParseError::MissingThreads);
        }
        let i1 = word_end_x(s, i0);
        if !region_is_threads(s, i0, i1) {
            return Err(ParseError::MissingThreads);
        }
        let i2 = skip_ws_x(s, i1);
        if !(i2 < n && s[i2] == 0x3d) {
            return Err(ParseError::ExpectedEquals);
        }
        let i3 = skip_ws_x(s, i2 + 1);
        if !(i3 < n && is_digit_x(s[i3])) {
            return Err(ParseError::InvalidThreadCount);
        }
        let (scanned, i4) = scan_int(s, i3);
        match scanned {
            None => Err(ParseError::InvalidThreadCount),
            Some(threads) => {
                let i5 = skip_ws_x(s, i4);
                if !(i5 < n && s[i5] == 0x2c) {
                    Err(ParseError::ExpectedComma)
                } else {
                    parse_after_threads_x(s, threads, i5 + 1)
                }
            },
        }
    }
}

/// Compiles a launch descriptor into its IR record: the thread count,
/// the block size with 0 standing for an absent block clause, and the
/// normalized body text.
///
/// Fails with the first grammar violation of [`spec_parse`], exactly
/// when the descriptor is ill-formed.
pub fn gpu_parallel(source: &Vec<u8>) -> (r: Result<KernelLaunchIR, ParseError>)
    ensures
        (match spec_parse(source@) {
            Ok(p) => {
                &&& r matches Ok(ir)
                &&& ir.threads == p.threads
                &&& ir.block_size == (match p.block_size {
                    Some(b) => b,
                    None => 0u32,
                })
                &&& ir.body@ == p.body
            },
            Err(e) => r == Err::<KernelLaunchIR, ParseError>(e),
        }),
{
    match GpuParallelInput::parse(source) {
        Ok(p) => {
            let block_size = match p.block_size {
                Some(b) => b,
                None => 0u32,
            };
            Ok(KernelLaunchIR { threads: p.threads, block_size, body: p.body })
        },
        Err(e) => Err(e),
    }
}

} // verus!
