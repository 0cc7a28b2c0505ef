//! Shell-script artifacts: function regions over a byte backing store.
//!
//! A script is partitioned into regions, one per shell function, found by
//! scanning for headers of the shape `name() {` or `function name() {` at
//! line starts.  Region identifiers are deterministic digests of the
//! script path and function name, so ids of untouched regions survive a
//! re-parse.

use vstd::prelude::*;

use crate::region::{MetaEntry, MetaValue, Patch, PatchOp, RegionId, RegionView};
use crate::signals::clone_string;

verus! {

/// A parsed shell function region: its name, the byte span it occupies,
/// its line span, and its kind tag.
pub struct ShellRegion {
    pub name: Vec<u8>,
    pub start: usize,
    pub end: usize,
    pub start_line: usize,
    pub end_line: usize,
    pub kind: String,
}

/// One region with its stable identifier.
pub struct RegionEntry {
    pub id: RegionId,
    pub region: ShellRegion,
}

/// Why an artifact operation failed.
#[derive(Clone, Copy, Debug, PartialEq, Eq, Structural)]
pub enum ArtifactError {
    /// A function header's opening brace has no matching closing brace.
    UnmatchedBrace,
    /// No region with the requested identifier exists.
    RegionNotFound,
}

/// The digest behind region identifiers, named after the outside call
/// that computes it (see [`digest_id`]): the same bytes always give the
/// same identifier, on every machine.
pub uninterp spec fn uuid_v5_of(data: Seq<u8>) -> u128;

/// Relies on `uuid::Uuid::new_v5`: a name-based (SHA-1) UUID over a fixed
/// namespace, a pure function of the input bytes, so identifiers are
/// deterministic across re-parses and processes.
#[verifier::external_body]
fn digest_id(data: &Vec<u8>) -> (r: u128)
    ensures
        r == uuid_v5_of(data@),
{
    let ns = uuid::Uuid::from_bytes([
        0x6b, 0xa7, 0xb8, 0x10, 0x9d, 0xad, 0x11, 0xd1, 0x80, 0xb4, 0x00, 0xc0, 0x4f, 0xd4, 0x30,
        0xc8,
    ]);
    uuid::Uuid::new_v5(&ns, data.as_slice()).as_u128()
}

/// The bytes whose digest identifies a region: the path, a colon, and
/// the function name.
pub open spec fn spec_id_input(path: Seq<char>, name: Seq<u8>) -> Seq<u8> {
    vstd::utf8::encode_utf8(path) + seq![58u8] + name
}

/// The identifier of the function `name` in the script at `path`.
pub open spec fn spec_region_id(path: Seq<char>, name: Seq<u8>) -> u128 {
    uuid_v5_of(spec_id_input(path, name))
}

/// Whitespace, as the header scanner accepts it between tokens.
pub open spec fn is_space(c: u8) -> bool {
    c == 32 || c == 9 || c == 10 || c == 13 || c == 11 || c == 12
}

/// A byte that may start an identifier.
pub open spec fn is_ident_start(c: u8) -> bool {
    (65 <= c <= 90) || (97 <= c <= 122) || c == 95
}

/// A byte that may continue an identifier.
pub open spec fn is_ident_char(c: u8) -> bool {
    is_ident_start(c) || (48 <= c <= 57)
}

/// Whether position `p` begins a line.
pub open spec fn is_line_start(s: Seq<u8>, p: int) -> bool {
    p == 0 || s[p - 1] == 10
}

/// The first position at or after `p` holding a non-whitespace byte.
pub open spec fn spec_skip_ws(s: Seq<u8>, p: int) -> int
    decreases s.len() - p,
{
    if p < 0 || p >= s.len() {
        p
    } else if is_space(s[p]) {
        spec_skip_ws(s, p + 1)
    } else {
        p
    }
}

/// The end of the identifier starting at `p`.
pub open spec fn spec_ident_end(s: Seq<u8>, p: int) -> int
    decreases s.len() - p,
{
    if p < 0 || p >= s.len() {
        p
    } else if is_ident_char(s[p]) {
        spec_ident_end(s, p + 1)
    } else {
        p
    }
}

/// Whether the literal keyword `function` followed by whitespace stands
/// at `p`.
pub open spec fn has_function_prefix(s: Seq<u8>, p: int) -> bool {
    &&& 0 <= p
    &&& p + 9 <= s.len()
    &&& s[p] == 102
    &&& s[p + 1] == 117
    &&& s[p + 2] == 110
    &&& s[p + 3] == 99
    &&& s[p + 4] == 116
    &&& s[p + 5] == 105
    &&& s[p + 6] == 111
    &&& s[p + 7] == 110
    &&& is_space(s[p + 8])
}

/// A header without the keyword: a name, `(`, `)` and `{`, with optional
/// whitespace between the tokens.  Returns the name span and the
/// position just after the opening brace.
pub open spec fn spec_header_plain(s: Seq<u8>, ns: int) -> Option<(int, int, int)> {
    if 0 <= ns < s.len() && is_ident_start(s[ns]) {
        let ne = spec_ident_end(s, ns);
        let q1 = spec_skip_ws(s, ne);
        if q1 < s.len() && s[q1] == 40 {
            let q2 = spec_skip_ws(s, q1 + 1);
            if q2 < s.len() && s[q2] == 41 {
                let q3 = spec_skip_ws(s, q2 + 1);
                if q3 < s.len() && s[q3] == 123 {
                    Some((ns, ne, q3 + 1))
                } else {
                    None
                }
            } else {
                None
            }
        } else {
            None
        }
    } else {
        None
    }
}

/// A function header at `p`: with the `function` keyword when its rest
/// parses, else as a bare header (the keyword itself can be the name).
pub open spec fn spec_header_at(s: Seq<u8>, p: int) -> Option<(int, int, int)> {
    if has_function_prefix(s, p) {
        match spec_header_plain(s, spec_skip_ws(s, p + 8)) {
            Some(r) => Some(r),
            None => spec_header_plain(s, p),
        }
    } else {
        spec_header_plain(s, p)
    }
}

/// The brace-matching scan from `i`: depth counting outside of
/// single- or double-quoted stretches, where a quote preceded by a
/// backslash neither opens nor closes.  Yields the position just after
/// the brace closing the first opened one, if the scan finds it.
pub open spec fn spec_find_brace(
    s: Seq<u8>,
    i: int,
    depth: int,
    in_string: bool,
    string_char: u8,
) -> Option<int>
    decreases s.len() - i,
{
    if i < 0 || i >= s.len() {
        None
    } else {
        let c = s[i];
        let quote = (c == 34 || c == 39) && (i == 0 || s[i - 1] != 92);
        let in2 = if quote {
            if !in_string {
                true
            } else if c == string_char {
                false
            } else {
                in_string
            }
        } else {
            in_string
        };
        let ch2 = if quote && !in_string {
            c
        } else {
            string_char
        };
        if !in2 && c == 123 {
            spec_find_brace(s, i + 1, depth + 1, in2, ch2)
        } else if !in2 && c == 125 {
            if depth - 1 == 0 {
                Some(i + 1)
            } else {
                spec_find_brace(s, i + 1, depth - 1, in2, ch2)
            }
        } else {
            spec_find_brace(s, i + 1, depth, in2, ch2)
        }
    }
}

/// The number of line breaks before position `p`.
pub open spec fn spec_newlines(s: Seq<u8>, p: int) -> int
    decreases p,
{
    if p <= 0 {
        0
    } else {
        spec_newlines(s, p - 1) + (if s[p - 1] == 10 {
            1int
        } else {
            0int
        })
    }
}

/// The number of lines the prefix of length `p` spans: its line breaks,
/// plus one for a trailing partial line.
pub open spec fn spec_lines(s: Seq<u8>, p: int) -> int {
    spec_newlines(s, p) + (if p > 0 && s[p - 1] != 10 {
        1int
    } else {
        0int
    })
}

/// Skip whitespace from `p`.
#[verifier::loop_isolation(false)]
fn skip_ws(s: &Vec<u8>, p: usize) -> (q: usize)
    requires
        p <= s@.len(),
    ensures
        q as int == spec_skip_ws(s@, p as int),
        p <= q <= s@.len(),
{
    let mut i = p;
    while i < s.len() && byte_is_space(s[i])
        invariant
            p <= i <= s@.len(),
            spec_skip_ws(s@, p as int) == spec_skip_ws(s@, i as int),
        decreases s@.len() - i,
    {
        i = i + 1;
    }
    i
}

/// Find the end of the identifier at `p`.
#[verifier::loop_isolation(false)]
fn ident_end(s: &Vec<u8>, p: usize) -> (q: usize)
    requires
        p <= s@.len(),
    ensures
        q as int == spec_ident_end(s@, p as int),
        p <= q <= s@.len(),
{
    let mut i = p;
    while i < s.len() && byte_is_ident(s[i])
        invariant
            p <= i <= s@.len(),
            spec_ident_end(s@, p as int) == spec_ident_end(s@, i as int),
        decreases s@.len() - i,
    {
        i = i + 1;
    }
    i
}

/// Decide whether a byte may continue an identifier.
fn byte_is_ident(c: u8) -> (r: bool)
    ensures
        r == is_ident_char(c),
{
    (65 <= c && c <= 90) || (97 <= c && c <= 122) || c == 95 || (48 <= c && c <= 57)
}

/// Decide whether a byte is whitespace.
fn byte_is_space(c: u8) -> (r: bool)
    ensures
        r == is_space(c),
{
    c == 32 || c == 9 || c == 10 || c == 13 || c == 11 || c == 12
}

/// Match a bare header at `ns`.
fn header_plain(s: &Vec<u8>, ns: usize) -> (r: Option<(usize, usize, usize)>)
    requires
        ns <= s@.len(),
    ensures
        r is Some ==> {
            let (a, b, c) = r->Some_0;
            spec_header_plain(s@, ns as int) == Some((a as int, b as int, c as int))
                && ns == a && a <= b <= s@.len() && b < c <= s@.len()
        },
        r is None ==> spec_header_plain(s@, ns as int) is None,
{
    if ns >= s.len() {
        return None;
    }
    let c0 = s[ns];
    if !((65 <= c0 && c0 <= 90) || (97 <= c0 && c0 <= 122) || c0 == 95) {
        return None;
    }
    let ne = ident_end(s, ns);
    let q1 = skip_ws(s, ne);
    if !(q1 < s.len() && s[q1] == 40) {
        return None;
    }
    let q2 = skip_ws(s, q1 + 1);
    if !(q2 < s.len() && s[q2] == 41) {
        return None;
    }
    let q3 = skip_ws(s, q2 + 1);
    if !(q3 < s.len() && s[q3] == 123) {
        return None;
    }
    Some((ns, ne, q3 + 1))
}

/// Match a function header at `p`, keyword form preferred.
fn header_at(s: &Vec<u8>, p: usize) -> (r: Option<(usize, usize, usize)>)
    requires
        p <= s@.len(),
    ensures
        r is Some ==> {
            let (a, b, c) = r->Some_0;
            spec_header_at(s@, p as int) == Some((a as int, b as int, c as int))
                && p <= a <= b <= s@.len() && b < c <= s@.len()
        },
        r is None ==> spec_header_at(s@, p as int) is None,
{
    let has_prefix = s.len() - p >= 9 && s[p] == 102 && s[p + 1] == 117 && s[p + 2] == 110
        && s[p + 3] == 99 && s[p + 4] == 116 && s[p + 5] == 105 && s[p + 6] == 111
        && s[p + 7] == 110 && byte_is_space(s[p + 8]);
    if has_prefix {
        let ns = skip_ws(s, p + 8);
        match header_plain(s, ns) {
            Some(r) => Some(r),
            None => header_plain(s, p),
        }
    } else {
        header_plain(s, p)
    }
}

/// Find the end of the function body opened by the header at `start`.
#[verifier::loop_isolation(false)]
pub fn find_matching_brace(s: &Vec<u8>, start: usize) -> (r: Result<usize, ArtifactError>)
    requires
        start <= s@.len(),
    ensures
        r is Ok ==> spec_find_brace(s@, start as int, 0, false, 34) == Some(r->Ok_0 as int),
        r is Err ==> spec_find_brace(s@, start as int, 0, false, 34) is None && r->Err_0
            == ArtifactError::UnmatchedBrace,
        r is Ok ==> start < r->Ok_0 <= s@.len(),
{
    let mut i = start;
    let mut depth: i128 = 0;
    let mut in_string = false;
    let mut string_char: u8 = 34;
    while i < s.len()
        invariant
            start <= i <= s@.len(),
            -(i - start) <= depth <= i - start,
            spec_find_brace(s@, start as int, 0, false, 34) == spec_find_brace(
                s@,
                i as int,
                depth as int,
                in_string,
                string_char,
            ),
        decreases s@.len() - i,
    {
        let ghost d0 = depth as int;
        let ghost in0 = in_string;
        let ghost ch0 = string_char;
        let c = s[i];
        let quote = (c == 34 || c == 39) && (i == 0 || s[i - 1] != 92);
        if quote {
            if !in_string {
                in_string = true;
                string_char = c;
            } else if c == string_char {
                in_string = false;
            }
        }
        if !in_string {
            if c == 123 {
                depth = depth + 1;
            } else if c == 125 {
                depth = depth - 1;
                if depth == 0 {
                    proof {
                        assert(spec_find_brace(s@, i as int, d0, in0, ch0) == Some(i + 1));
                    }
                    return Ok(i + 1);
                }
            }
        }
        proof {
            assert(spec_find_brace(s@, i as int, d0, in0, ch0) == spec_find_brace(
                s@,
                i + 1,
                depth as int,
                in_string,
                string_char,
            ));
        }
        i = i + 1;
    }
    Err(ArtifactError::UnmatchedBrace)
}

/// Line-break counts never exceed the prefix length.
proof fn lemma_newlines_bound(s: Seq<u8>, p: int)
    ensures
        0 <= spec_newlines(s, p) <= (if p > 0 {
            p
        } else {
            0int
        }),
    decreases p,
{
    if p > 0 {
        lemma_newlines_bound(s, p - 1);
    }
}

/// Count the line breaks before `upto`.
#[verifier::loop_isolation(false)]
fn count_newlines(s: &Vec<u8>, upto: usize) -> (n: usize)
    requires
        upto <= s@.len(),
    ensures
        n as int == spec_newlines(s@, upto as int),
        n <= upto,
{
    let mut n: usize = 0;
    let mut i: usize = 0;
    while i < upto
        invariant
            0 <= i <= upto,
            n <= i,
            n as int == spec_newlines(s@, i as int),
        decreases upto - i,
    {
        if s[i] == 10 {
            n = n + 1;
        }
        i = i + 1;
    }
    n
}

/// The number of lines the prefix of length `p` spans.
fn count_lines(s: &Vec<u8>, p: usize) -> (n: usize)
    requires
        p <= s@.len(),
    ensures
        n as int == spec_lines(s@, p as int),
        n <= p,
{
    let nl = count_newlines(s, p);
    if p > 0 && s[p - 1] != 10 {
        proof {
            lemma_newlines_bound(s@, p - 1);
            assert(spec_newlines(s@, p as int) == spec_newlines(s@, p - 1));
        }
        nl + 1
    } else {
        nl
    }
}

/// The position just after the opening brace of the header at `st`.
pub open spec fn spec_header_end(s: Seq<u8>, st: int) -> int {
    spec_header_at(s, st)->Some_0.2
}

/// One parsed region is sound: it sits at a line start holding a
/// function header, carries that header's name, the deterministic
/// identifier of path and name, the brace-matched end of its body, and
/// one-based line numbers.
pub open spec fn region_sound(path: Seq<char>, s: Seq<u8>, e: RegionEntry) -> bool {
    let hdr = spec_header_at(s, e.region.start as int);
    &&& is_line_start(s, e.region.start as int)
    &&& hdr is Some
    &&& e.region.name@ == s.subrange(hdr->Some_0.0, hdr->Some_0.1)
    &&& e.id == spec_region_id(path, e.region.name@)
    &&& spec_find_brace(s, e.region.start as int, 0, false, 34) == Some(e.region.end as int)
    &&& e.region.start < e.region.end <= s.len()
    &&& e.region.start_line as int == spec_lines(s, e.region.start as int) + 1
    &&& e.region.end_line as int == spec_lines(s, e.region.end as int) + 1
    &&& e.region.kind@ == "function"@
}

/// The parse result is faithful to the source: every entry is sound, and
/// every line start holding a function header lies within some entry's
/// recorded header span (the scan consumes a header whole, so a header
/// spanning several lines covers the line starts inside it).
#[verifier::opaque]
pub open spec fn regions_wf(path: Seq<char>, s: Seq<u8>, entries: Seq<RegionEntry>) -> bool {
    &&& forall|k: int| 0 <= k < entries.len() ==> region_sound(path, s, #[trigger] entries[k])
    &&& forall|q: int|
        #![trigger spec_header_at(s, q)]
        0 <= q < s.len() && is_line_start(s, q) && spec_header_at(s, q) is Some
            ==> exists|k: int|
            #![trigger entries[k]]
            0 <= k < entries.len() && entries[k].region.start <= q < spec_header_end(
                s,
                entries[k].region.start as int,
            )
}

/// Copy the bytes of `[a, b)`.
#[verifier::loop_isolation(false)]
fn copy_range(s: &Vec<u8>, a: usize, b: usize) -> (r: Vec<u8>)
    requires
        a <= b <= s@.len(),
    ensures
        r@ == s@.subrange(a as int, b as int),
{
    let mut r: Vec<u8> = Vec::new();
    let mut i = a;
    while i < b
        invariant
            a <= i <= b <= s@.len(),
            r@ == s@.subrange(a as int, i as int),
        decreases b - i,
    {
        r.push(s[i]);
        proof {
            assert(s@.subrange(a as int, i + 1) =~= s@.subrange(a as int, i as int).push(
                s@[i as int],
            ));
        }
        i = i + 1;
    }
    r
}

/// Whether two byte vectors hold the same bytes.
#[verifier::loop_isolation(false)]
pub fn vec_bytes_equal(a: &Vec<u8>, b: &Vec<u8>) -> (r: bool)
    ensures
        r == (a@ == b@),
{
    if a.len() != b.len() {
        return false;
    }
    let n = a.len();
    let mut i: usize = 0;
    while i < n
        invariant
            n == a@.len() == b@.len(),
            0 <= i <= n,
            forall|j: int| 0 <= j < i ==> a@[j] == b@[j],
        decreases n - i,
    {
        if a[i] != b[i] {
            return false;
        }
        i = i + 1;
    }
    proof {
        assert(a@ =~= b@);
    }
    true
}

/// The bytes that identify the function `name` in the script at `path`.
fn id_input(path: &String, name: &Vec<u8>) -> (r: Vec<u8>)
    ensures
        r@ == spec_id_input(path@, name@),
{
    let mut buf = path.as_str().as_bytes_vec();
    buf.push(58);
    let ghost mid = buf@;
    buf.extend_from_slice(name.as_slice());
    proof {
        assert(buf@ =~= spec_id_input(path@, name@));
    }
    buf
}

/// Parse the shell functions of `source`, in scan order.
///
/// A header found at a line start opens a region running to the brace
/// matching its opening brace; the scan resumes after the header, so a
/// header never overlaps an earlier one.  An unmatched brace fails the
/// whole parse.  Two functions with the same name in one script share an
/// identifier; each occurrence is its own entry.
#[verifier::loop_isolation(false)]
#[verifier::rlimit(80)]
pub fn parse_functions(path: &String, source: &Vec<u8>) -> (r: Result<
    Vec<RegionEntry>,
    ArtifactError,
>)
    requires
        source@.len() < usize::MAX,
    ensures
        r is Ok ==> regions_wf(path@, source@, r->Ok_0@),
        r is Err ==> r->Err_0 == ArtifactError::UnmatchedBrace,
{
    let n = source.len();
    let mut entries: Vec<RegionEntry> = Vec::new();
    let mut p: usize = 0;
    while p < n
        invariant
            n == source@.len(),
            n < usize::MAX,
            0 <= p <= n,
            forall|k: int|
                0 <= k < entries@.len() ==> region_sound(path@, source@, #[trigger] entries@[k]),
            forall|q: int|
                0 <= q < p && is_line_start(source@, q) && spec_header_at(source@, q) is Some
                    ==> exists|k: int|
                    #![trigger entries@[k]]
                    0 <= k < entries@.len() && entries@[k].region.start <= q < spec_header_end(
                        source@,
                        entries@[k].region.start as int,
                    ),
        decreases n - p,
    {
        let line_start = p == 0 || source[p - 1] == 10;
        if !line_start {
            p = p + 1;
            continue ;
        }
        match header_at(source, p) {
            None => {
                p = p + 1;
            },
            Some((ns, ne, he)) => {
                let end = match find_matching_brace(source, p) {
                    Ok(e) => e,
                    Err(e) => {
                        return Err(e);
                    },
                };
                let name = copy_range(source, ns, ne);
                let id_bytes = id_input(path, &name);
                let id = digest_id(&id_bytes);
                let ghost name_v = name@;
                proof {
                    assert(id == uuid_v5_of(spec_id_input(path@, name_v)));
                }
                let start_line = count_lines(source, p) + 1;
                let end_line = count_lines(source, end) + 1;
                let region = ShellRegion {
                    name,
                    start: p,
                    end,
                    start_line,
                    end_line,
                    kind: new_function_kind(),
                };
                let entry = RegionEntry { id, region };
                let ghost e_pre = entries@;
                entries.push(entry);
                proof {
                    let e = entries@.last();
                    assert(is_line_start(source@, e.region.start as int));
                    assert(spec_header_at(source@, e.region.start as int) == Some(
                        (ns as int, ne as int, he as int),
                    ));
                    assert(e.region.name@ == source@.subrange(ns as int, ne as int));
                    assert(e.region.name@ == name_v);
                    assert(spec_id_input(path@, e.region.name@) == spec_id_input(path@, name_v));
                    assert(uuid_v5_of(spec_id_input(path@, e.region.name@)) == uuid_v5_of(
                        spec_id_input(path@, name_v),
                    ));
                    assert(e.id == uuid_v5_of(spec_id_input(path@, e.region.name@)));
                    assert(spec_region_id(path@, e.region.name@) == uuid_v5_of(
                        spec_id_input(path@, e.region.name@),
                    ));
                    assert(e.id == spec_region_id(path@, e.region.name@));
                    assert(spec_find_brace(source@, e.region.start as int, 0, false, 34) == Some(
                        e.region.end as int,
                    ));
                    assert(e.region.start < e.region.end <= source@.len());
                    assert(e.region.start_line as int == spec_lines(
                        source@,
                        e.region.start as int,
                    ) + 1);
                    assert(e.region.end_line as int == spec_lines(source@, e.region.end as int)
                        + 1);
                    assert(e.region.kind@ == "function"@);
                    assert(region_sound(path@, source@, entries@.last()));
                    assert forall|q: int|
                        0 <= q < he as int && is_line_start(source@, q) && spec_header_at(
                            source@,
                            q,
                        ) is Some implies exists|k: int|
                        #![trigger entries@[k]]
                        0 <= k < entries@.len() && entries@[k].region.start <= q
                            < spec_header_end(source@, entries@[k].region.start as int) by {
                        if q < p {
                            let k = choose|k: int|
                                #![trigger e_pre[k]]
                                0 <= k < e_pre.len() && e_pre[k].region.start <= q
                                    < spec_header_end(source@, e_pre[k].region.start as int);
                            assert(entries@[k] == e_pre[k]);
                        } else {
                            let k = e_pre.len() as int;
                            assert(entries@[k].region.start <= q < spec_header_end(
                                source@,
                                entries@[k].region.start as int,
                            ));
                        }
                    }
                }
                p = he;
            },
        }
    }
    proof {
        assert(regions_wf(path@, source@, entries@)) by {
            reveal(regions_wf);
        }
    }
    Ok(entries)
}

/// The kind tag shared by all shell-function regions.
fn new_function_kind() -> (s: String)
    ensures
        s@ == "function"@,
{
    let s = "function";
    s.to_owned()
}

/// A shell script parsed into function regions over a byte store.
pub struct ShellArtifact {
    pub path: String,
    pub source: Vec<u8>,
    pub regions: Vec<RegionEntry>,
}

impl ShellArtifact {
    /// The regions faithfully describe the source.
    pub open spec fn wf(&self) -> bool {
        regions_wf(self.path@, self.source@, self.regions@)
    }

    /// Parse an artifact from its path and source bytes.
    pub fn from_source(path: String, source: Vec<u8>) -> (r: Result<ShellArtifact, ArtifactError>)
        requires
            source@.len() < usize::MAX,
        ensures
            r is Ok ==> {
                let a = r->Ok_0;
                &&& a.path@ == path@
                &&& a.source@ == source@
                &&& a.wf()
            },
            r is Err ==> r->Err_0 == ArtifactError::UnmatchedBrace,
    {
        match parse_functions(&path, &source) {
            Ok(regions) => Ok(ShellArtifact { path, source, regions }),
            Err(e) => Err(e),
        }
    }

    /// The path of the script this artifact was parsed from.
    pub fn path(&self) -> (p: &str)
        ensures
            p@ == self.path@,
    {
        self.path.as_str()
    }

    /// The current source bytes.
    pub fn source(&self) -> (s: &Vec<u8>)
        ensures
            s@ == self.source@,
    {
        &self.source
    }

    /// The region identifiers, in scan order.
    #[verifier::loop_isolation(false)]
    pub fn region_ids(&self) -> (ids: Vec<RegionId>)
        ensures
            ids@.len() == self.regions@.len(),
            forall|k: int| 0 <= k < ids@.len() ==> ids@[k] == self.regions@[k].id,
    {
        let n = self.regions.len();
        let mut ids: Vec<RegionId> = Vec::new();
        let mut k: usize = 0;
        while k < n
            invariant
                n == self.regions@.len(),
                0 <= k <= n,
                ids@.len() == k,
                forall|j: int| 0 <= j < k ==> ids@[j] == self.regions@[j].id,
            decreases n - k,
        {
            ids.push(self.regions[k].id);
            k = k + 1;
        }
        ids
    }

    /// A read-only snapshot of the region with this identifier, taken
    /// from the first entry carrying it.
    #[verifier::loop_isolation(false)]
    #[verifier::rlimit(80)]
    pub fn read_region(&self, id: RegionId) -> (r: Result<RegionView, ArtifactError>)
        requires
            self.wf(),
        ensures
            r is Ok <==> (exists|k: int|
                0 <= k < self.regions@.len() && (#[trigger] self.regions@[k]).id == id),
            r is Err ==> r->Err_0 == ArtifactError::RegionNotFound,
            r is Ok ==> exists|k: int|
                #![trigger self.regions@[k]]
                {
                    let e = self.regions@[k];
                    let v = r->Ok_0;
                    &&& 0 <= k < self.regions@.len()
                    &&& e.id == id
                    &&& (forall|j: int| 0 <= j < k ==> self.regions@[j].id != id)
                    &&& v.id == id
                    &&& v.kind@ == e.region.kind@
                    &&& v.content@ == self.source@.subrange(
                        e.region.start as int,
                        e.region.end as int,
                    )
                },
    {
        let n = self.regions.len();
        let mut k: usize = 0;
        while k < n
            invariant
                n == self.regions@.len(),
                0 <= k <= n,
                forall|j: int| 0 <= j < k ==> self.regions@[j].id != id,
            decreases n - k,
        {
            if self.regions[k].id == id {
                let e = &self.regions[k];
                proof {
                    assert(region_sound(self.path@, self.source@, self.regions@[k as int])) by {
                        reveal(regions_wf);
                    }
                }
                let content = copy_range(&self.source, e.region.start, e.region.end);
                let mut metadata: Vec<MetaEntry> = Vec::new();
                metadata.push(
                    MetaEntry {
                        key: new_key_name(),
                        value: MetaValue::Bytes(copy_range(&e.region.name, 0, e.region.name.len())),
                    },
                );
                metadata.push(
                    MetaEntry {
                        key: new_key_start_line(),
                        value: MetaValue::Number(e.region.start_line as u64),
                    },
                );
                metadata.push(
                    MetaEntry {
                        key: new_key_end_line(),
                        value: MetaValue::Number(e.region.end_line as u64),
                    },
                );
                return Ok(
                    RegionView { id, kind: clone_string(&e.region.kind), content, metadata },
                );
            }
            k = k + 1;
        }
        Err(ArtifactError::RegionNotFound)
    }

    /// Apply a patch to the region with its identifier: replace, delete
    /// or append to the region's byte span, then re-parse the new source.
    ///
    /// On any failure — unknown region, or an unmatched brace in the
    /// edited source — the artifact is exactly its pre-apply snapshot.
    /// An identity replacement (the bytes unchanged) leaves the source
    /// and the parsed regions untouched.
    #[verifier::loop_isolation(false)]
    #[verifier::rlimit(100)]
    #[verifier::spinoff_prover]
    pub fn apply_patch(&mut self, patch: &Patch) -> (r: Result<(), ArtifactError>)
        requires
            old(self).wf(),
            old(self).source@.len() < usize::MAX - 1,
            (match patch.op {
                PatchOp::Replace(c) => c@.len(),
                PatchOp::Delete => 0,
                PatchOp::InsertAfter(c) => c@.len(),
            }) + 2 * old(self).source@.len() + 1 < usize::MAX,
        ensures
            final(self).path@ == old(self).path@,
            r is Err ==> *final(self) == *old(self),
            (r == Err::<(), ArtifactError>(ArtifactError::RegionNotFound)) <==> (forall|k: int|
                0 <= k < old(self).regions@.len() ==> (#[trigger] old(self).regions@[k]).id
                    != patch.region),
            r is Ok ==> final(self).wf(),
            r is Ok ==> exists|k: int|
                #![trigger old(self).regions@[k]]
                {
                    let e = old(self).regions@[k];
                    &&& 0 <= k < old(self).regions@.len()
                    &&& e.id == patch.region
                    &&& (forall|j: int| 0 <= j < k ==> old(self).regions@[j].id != patch.region)
                    &&& final(self).source@ == old(self).source@.subrange(0, e.region.start as int)
                        + (match patch.op {
                        PatchOp::Replace(c) => c@,
                        PatchOp::Delete => Seq::<u8>::empty(),
                        PatchOp::InsertAfter(c) => old(self).source@.subrange(
                            e.region.start as int,
                            e.region.end as int,
                        ) + seq![10u8] + c@,
                    }) + old(self).source@.subrange(
                        e.region.end as int,
                        old(self).source@.len() as int,
                    )
                },
            // An identity replacement is a no-op: re-parsing yields the
            // same region set and the same source.
            (match patch.op {
                PatchOp::Replace(c) => (exists|k: int|
                    #![trigger old(self).regions@[k]]
                    0 <= k < old(self).regions@.len() && old(self).regions@[k].id == patch.region
                        && (forall|j: int|
                        0 <= j < k ==> old(self).regions@[j].id != patch.region) && c@ == old(
                        self,
                    ).source@.subrange(
                        old(self).regions@[k].region.start as int,
                        old(self).regions@[k].region.end as int,
                    )),
                PatchOp::Delete => false,
                PatchOp::InsertAfter(_) => false,
            }) ==> r is Ok && final(self).source@ == old(self).source@ && final(self).regions
                == old(self).regions,
    {
        let n = self.regions.len();
        let mut k: usize = 0;
        while k < n
            invariant
                *self == *old(self),
                n == self.regions@.len(),
                0 <= k <= n,
                forall|j: int| 0 <= j < k ==> self.regions@[j].id != patch.region,
            decreases n - k,
        {
            if self.regions[k].id == patch.region {
                proof {
                    assert(region_sound(self.path@, self.source@, self.regions@[k as int])) by {
                        reveal(regions_wf);
                    }
                    assert(old(self).regions@[k as int].id == patch.region);
                }
                let start = self.regions[k].region.start;
                let end = self.regions[k].region.end;
                let mut new_source = copy_range(&self.source, 0, start);
                match &patch.op {
                    PatchOp::Replace(c) => {
                        let ghost pre = new_source@;
                        new_source.extend_from_slice(c.as_slice());
                        proof {
                            assert(new_source@ =~= pre + c@);
                        }
                    },
                    PatchOp::Delete => {},
                    PatchOp::InsertAfter(c) => {
                        let ghost pre = new_source@;
                        let body = copy_range(&self.source, start, end);
                        new_source.extend_from_slice(body.as_slice());
                        new_source.push(10);
                        new_source.extend_from_slice(c.as_slice());
                        proof {
                            assert(new_source@ =~= pre + self.source@.subrange(
                                start as int,
                                end as int,
                            ) + seq![10u8] + c@);
                        }
                    },
                }
                let ghost mid = new_source@;
                let tail = copy_range(&self.source, end, self.source.len());
                new_source.extend_from_slice(tail.as_slice());
                proof {
                    assert(new_source@ =~= mid + self.source@.subrange(
                        end as int,
                        self.source@.len() as int,
                    ));
                }
                if vec_bytes_equal(&new_source, &self.source) {
                    proof {
                        lemma_identity_splice(self.source@, start as int, end as int);
                    }
                    return Ok(());
                }
                proof {
                    // The identity premise cannot hold here: the
                    // reassembled bytes were compared and differ.
                    match &patch.op {
                        PatchOp::Replace(c) => {
                            if exists|k0: int|
                                #![trigger old(self).regions@[k0]]
                                0 <= k0 < old(self).regions@.len() && old(self).regions@[k0].id
                                    == patch.region && (forall|j: int|
                                    0 <= j < k0 ==> old(self).regions@[j].id != patch.region)
                                    && c@ == old(self).source@.subrange(
                                    old(self).regions@[k0].region.start as int,
                                    old(self).regions@[k0].region.end as int,
                                ) {
                                let k0 = choose|k0: int|
                                    #![trigger old(self).regions@[k0]]
                                    0 <= k0 < old(self).regions@.len() && old(
                                        self,
                                    ).regions@[k0].id == patch.region && (forall|j: int|
                                        0 <= j < k0 ==> old(self).regions@[j].id != patch.region)
                                        && c@ == old(self).source@.subrange(
                                        old(self).regions@[k0].region.start as int,
                                        old(self).regions@[k0].region.end as int,
                                    );
                                if k0 < k as int {
                                    assert(self.regions@[k0].id != patch.region);
                                } else if (k as int) < k0 {
                                    assert(old(self).regions@[k as int].id != patch.region);
                                }
                                assert(k0 == k as int);
                                assert(c@ == self.source@.subrange(start as int, end as int));
                                assert(new_source@ =~= self.source@);
                                assert(false);
                            }
                        },
                        PatchOp::Delete => {},
                        PatchOp::InsertAfter(_) => {},
                    }
                }
                match parse_functions(&self.path, &new_source) {
                    Ok(regions) => {
                        self.source = new_source;
                        self.regions = regions;
                        return Ok(());
                    },
                    Err(e) => {
                        return Err(e);
                    },
                }
            }
            k = k + 1;
        }
        Err(ArtifactError::RegionNotFound)
    }
}

/// Replacing a region by its own bytes reassembles the source exactly.
proof fn lemma_identity_splice(s: Seq<u8>, start: int, end: int)
    requires
        0 <= start <= end <= s.len(),
    ensures
        s.subrange(0, start) + s.subrange(start, end) + s.subrange(end, s.len() as int) =~= s,
{
}

/// The metadata key naming the function.
fn new_key_name() -> (s: String)
    ensures
        s@ == "name"@,
{
    "name".to_owned()
}

/// The metadata key for the first line.
fn new_key_start_line() -> (s: String)
    ensures
        s@ == "start_line"@,
{
    "start_line".to_owned()
}

/// The metadata key for the last line.
fn new_key_end_line() -> (s: String)
    ensures
        s@ == "end_line"@,
{
    "end_line".to_owned()
}

} // verus!
