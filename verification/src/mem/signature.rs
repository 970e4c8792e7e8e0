//! The textual signature format (`"8B 0D ? ? 89 45"`) and the byte regex
//! pattern that is generated from it.
use vstd::prelude::*;

verus! {

/// The characters with the Unicode `White_Space` property: the separators
/// between the tokens of a signature.
pub open spec fn is_white_space(c: char) -> bool {
    let u = c as u32;
    ||| 0x09 <= u <= 0x0D
    ||| u == 0x20
    ||| u == 0x85
    ||| u == 0xA0
    ||| u == 0x1680
    ||| 0x2000 <= u <= 0x200A
    ||| u == 0x2028
    ||| u == 0x2029
    ||| u == 0x202F
    ||| u == 0x205F
    ||| u == 0x3000
}

/// Decides `is_white_space`.
pub fn is_white_space_char(c: char) -> (b: bool)
    ensures
        b == is_white_space(c),
{
    let u = c as u32;
    (0x09 <= u && u <= 0x0D) || u == 0x20 || u == 0x85 || u == 0xA0 || u == 0x1680 || (0x2000
        <= u && u <= 0x200A) || u == 0x2028 || u == 0x2029 || u == 0x202F || u == 0x205F || u
        == 0x3000
}

/// Reading `s` from the left: the words that are already closed by a
/// whitespace character, and the word that is still open at the end of `s`.
pub open spec fn scan_words(s: Seq<char>) -> (Seq<Seq<char>>, Seq<char>)
    decreases s.len(),
{
    if s.len() == 0 {
        (Seq::empty(), Seq::empty())
    } else {
        let prev = scan_words(s.drop_last());
        if is_white_space(s.last()) {
            if prev.1.len() > 0 {
                (prev.0.push(prev.1), Seq::empty())
            } else {
                (prev.0, Seq::empty())
            }
        } else {
            (prev.0, prev.1.push(s.last()))
        }
    }
}

/// The maximal runs of non-whitespace characters of `s`, in order.
pub open spec fn split_white_space(s: Seq<char>) -> Seq<Seq<char>> {
    let sc = scan_words(s);
    if sc.1.len() > 0 {
        sc.0.push(sc.1)
    } else {
        sc.0
    }
}

/// The regex fragment of one token: `?` is any byte, anything else is taken
/// as the hex digits of a `\x` escape.
pub open spec fn token_pattern(t: Seq<char>) -> Seq<char> {
    if t == seq!['?'] {
        seq!['.']
    } else {
        seq!['\\', 'x'] + t
    }
}

/// The fragments of all tokens, concatenated.
pub open spec fn join_patterns(ws: Seq<Seq<char>>) -> Seq<char>
    decreases ws.len(),
{
    if ws.len() == 0 {
        Seq::empty()
    } else {
        join_patterns(ws.drop_last()) + token_pattern(ws.last())
    }
}

/// The flags every generated pattern starts with: `.` matches any byte
/// (`s`) and escapes denote bytes, not code points (`-u`).
pub open spec fn regex_prefix() -> Seq<char> {
    seq!['(', '?', 's', '-', 'u', ')']
}

/// The byte regex pattern that a textual signature stands for.
pub open spec fn signature_pattern(raw: Seq<char>) -> Seq<char> {
    regex_prefix() + join_patterns(split_white_space(raw))
}

/// An ASCII hex digit, as the regex syntax accepts it after `\x`.
pub open spec fn is_hex_digit(c: char) -> bool {
    let u = c as u32;
    ||| 0x30 <= u <= 0x39
    ||| 0x41 <= u <= 0x46
    ||| 0x61 <= u <= 0x66
}

/// The value of a hex digit.
pub open spec fn hex_value(c: char) -> int {
    let u = c as u32;
    if 0x30 <= u <= 0x39 {
        u - 0x30
    } else if 0x41 <= u <= 0x46 {
        u - 0x41 + 10
    } else {
        u - 0x61 + 10
    }
}

/// The byte written with the two hex digits `hi` and `lo`.
pub open spec fn hex_byte(hi: char, lo: char) -> u8 {
    (16 * hex_value(hi) + hex_value(lo)) as u8
}

/// What one well-formed token stands for: `Some(None)` for the wildcard `?`,
/// `Some(Some(b))` for two hex digits, `None` for anything else.
pub open spec fn token_byte(t: Seq<char>) -> Option<Option<u8>> {
    if t == seq!['?'] {
        Some(None)
    } else if t.len() == 2 && is_hex_digit(t[0]) && is_hex_digit(t[1]) {
        Some(Some(hex_byte(t[0], t[1])))
    } else {
        None
    }
}

/// The byte signature of a token list, if every token is well formed.
pub open spec fn parse_tokens(ws: Seq<Seq<char>>) -> Option<Seq<Option<u8>>>
    decreases ws.len(),
{
    if ws.len() == 0 {
        Some(Seq::empty())
    } else {
        match (parse_tokens(ws.drop_last()), token_byte(ws.last())) {
            (Some(p), Some(b)) => Some(p.push(b)),
            _ => None,
        }
    }
}

/// The byte signature a textual signature denotes, when all of its tokens are
/// `?` or two hex digits: `None` stands for a wildcard byte.
pub open spec fn parse_signature(raw: Seq<char>) -> Option<Seq<Option<u8>>> {
    parse_tokens(split_white_space(raw))
}

/// Reads a pattern body made only of the atoms `.` (any byte) and `\xHH`
/// (the byte `HH`) back into a byte signature.
pub open spec fn decode_atoms(q: Seq<char>) -> Option<Seq<Option<u8>>>
    decreases q.len(),
{
    if q.len() == 0 {
        Some(Seq::empty())
    } else if q.last() == '.' {
        match decode_atoms(q.drop_last()) {
            Some(p) => Some(p.push(None)),
            None => None,
        }
    } else if q.len() >= 4 && q[q.len() - 4] == '\\' && q[q.len() - 3] == 'x' && is_hex_digit(
        q[q.len() - 2],
    ) && is_hex_digit(q[q.len() - 1]) {
        match decode_atoms(q.take(q.len() - 4)) {
            Some(p) => Some(p.push(Some(hex_byte(q[q.len() - 2], q[q.len() - 1])))),
            None => None,
        }
    } else {
        None
    }
}

/// The byte signature that a pattern of the form `(?s-u)` followed by `.`
/// and `\xHH` atoms matches; `None` for a pattern of any other form.
pub open spec fn pattern_signature(p: Seq<char>) -> Option<Seq<Option<u8>>> {
    if p.len() >= 6 && p.take(6) == regex_prefix() {
        decode_atoms(p.skip(6))
    } else {
        None
    }
}

/// The signature `sig` occurs in `data` at offset `i`: every byte that is
/// not a wildcard is equal.
pub open spec fn matches_at(sig: Seq<Option<u8>>, data: Seq<u8>, i: int) -> bool {
    &&& 0 <= i
    &&& i + sig.len() <= data.len()
    &&& forall|j: int| 0 <= j < sig.len() ==> (#[trigger] sig[j] matches Some(b) ==> data[i + j] == b)
}

/// `i` is the first offset at which `sig` occurs in `data`.
pub open spec fn is_first_match(sig: Seq<Option<u8>>, data: Seq<u8>, i: int) -> bool {
    &&& matches_at(sig, data, i)
    &&& forall|k: int| 0 <= k < i ==> !#[trigger] matches_at(sig, data, k)
}

proof fn lemma_join_decodes(ws: Seq<Seq<char>>)
    requires
        parse_tokens(ws) is Some,
    ensures
        decode_atoms(join_patterns(ws)) == parse_tokens(ws),
    decreases ws.len(),
{
    if ws.len() > 0 {
        let init = ws.drop_last();
        let t = ws.last();
        lemma_join_decodes(init);
        let q = join_patterns(init);
        let j = join_patterns(ws);
        if t == seq!['?'] {
            assert(j.drop_last() =~= q);
        } else {
            assert(t.len() == 2);
            assert(j.len() == q.len() + 4);
            assert(j[j.len() - 4] == '\\');
            assert(j[j.len() - 3] == 'x');
            assert(j[j.len() - 2] == t[0]);
            assert(j[j.len() - 1] == t[1]);
            assert(j.last() != '.');
            assert(j.take(j.len() - 4) =~= q);
        }
    }
}

/// The pattern generated from a well-formed signature matches exactly that
/// signature: reading the pattern's atoms back gives the parsed signature.
pub proof fn lemma_signature_pattern_denotes(raw: Seq<char>)
    requires
        parse_signature(raw) is Some,
    ensures
        pattern_signature(signature_pattern(raw)) == parse_signature(raw),
{
    let p = signature_pattern(raw);
    let j = join_patterns(split_white_space(raw));
    lemma_join_decodes(split_white_space(raw));
    assert(p.take(6) =~= regex_prefix());
    assert(p.skip(6) =~= j);
}

/// Printable ASCII characters (`!` to `~`), among them the hex digits and
/// `?`, never separate tokens; space, tab, line feed and carriage return do.
pub proof fn lemma_separators(c: char)
    ensures
        0x21 <= c as u32 <= 0x7E ==> !is_white_space(c),
        is_white_space(' ') && is_white_space('\t') && is_white_space('\n') && is_white_space(
            '\r',
        ),
{
}

/// The upper-case hex digit of a number below sixteen.
pub open spec fn hex_upper(n: nat) -> char {
    seq!['0', '1', '2', '3', '4', '5', '6', '7', '8', '9', 'A', 'B', 'C', 'D', 'E', 'F'][n as int]
}

/// The lower-case hex digit of a number below sixteen.
pub open spec fn hex_lower(n: nat) -> char {
    seq!['0', '1', '2', '3', '4', '5', '6', '7', '8', '9', 'a', 'b', 'c', 'd', 'e', 'f'][n as int]
}

proof fn lemma_hex_digit_chars(n: nat)
    requires
        n < 16,
    ensures
        is_hex_digit(hex_upper(n)),
        hex_value(hex_upper(n)) == n,
        is_hex_digit(hex_lower(n)),
        hex_value(hex_lower(n)) == n,
        0x21 <= hex_upper(n) as u32 <= 0x7E,
{
    let u = seq!['0', '1', '2', '3', '4', '5', '6', '7', '8', '9', 'A', 'B', 'C', 'D', 'E', 'F'];
    let l = seq!['0', '1', '2', '3', '4', '5', '6', '7', '8', '9', 'a', 'b', 'c', 'd', 'e', 'f'];
    assert(u[0] == '0' && u[1] == '1' && u[2] == '2' && u[3] == '3' && u[4] == '4' && u[5] == '5');
    assert(u[6] == '6' && u[7] == '7' && u[8] == '8' && u[9] == '9' && u[10] == 'A');
    assert(u[11] == 'B' && u[12] == 'C' && u[13] == 'D' && u[14] == 'E' && u[15] == 'F');
    assert(l[0] == '0' && l[1] == '1' && l[2] == '2' && l[3] == '3' && l[4] == '4' && l[5] == '5');
    assert(l[6] == '6' && l[7] == '7' && l[8] == '8' && l[9] == '9' && l[10] == 'a');
    assert(l[11] == 'b' && l[12] == 'c' && l[13] == 'd' && l[14] == 'e' && l[15] == 'f');
}

/// A two-digit token, in upper or lower case, stands for the byte whose
/// high and low hex digits it writes; `?` stands for any byte.
pub proof fn lemma_hex_token(b: u8)
    ensures
        token_byte(seq![hex_upper(b as nat / 16), hex_upper(b as nat % 16)]) == Some(Some(b)),
        token_byte(seq![hex_lower(b as nat / 16), hex_lower(b as nat % 16)]) == Some(Some(b)),
        token_byte(seq!['?']) == Some(None::<u8>),
{
    lemma_hex_digit_chars(b as nat / 16);
    lemma_hex_digit_chars(b as nat % 16);
    let tu = seq![hex_upper(b as nat / 16), hex_upper(b as nat % 16)];
    let tl = seq![hex_lower(b as nat / 16), hex_lower(b as nat % 16)];
    assert(tu != seq!['?']) by {
        assert(tu.len() != seq!['?'].len());
    }
    assert(tl != seq!['?']) by {
        assert(tl.len() != seq!['?'].len());
    }
    assert(b as nat == 16 * (b as nat / 16) + b as nat % 16);
}

/// The token written for one byte of a signature: `?` for a wildcard, two
/// upper-case hex digits otherwise.
pub open spec fn written_token(b: Option<u8>) -> Seq<char> {
    match b {
        None => seq!['?'],
        Some(x) => seq![hex_upper(x as nat / 16), hex_upper(x as nat % 16)],
    }
}

/// A byte signature written out in the textual format, one token per byte,
/// each followed by a space.
pub open spec fn written_signature(sig: Seq<Option<u8>>) -> Seq<char>
    decreases sig.len(),
{
    if sig.len() == 0 {
        Seq::empty()
    } else {
        written_signature(sig.drop_last()) + written_token(sig.last()) + seq![' ']
    }
}

proof fn lemma_scan_word(p: Seq<char>, w: Seq<char>)
    requires
        scan_words(p).1.len() == 0,
        w.len() > 0,
        forall|k: int| 0 <= k < w.len() ==> !is_white_space(#[trigger] w[k]),
    ensures
        scan_words(p + w) == (scan_words(p).0, w),
    decreases w.len(),
{
    let pw = p + w;
    assert(pw.drop_last() =~= p + w.drop_last());
    assert(pw.last() == w[w.len() - 1]);
    if w.len() == 1 {
        assert(p + w.drop_last() =~= p);
        assert(Seq::<char>::empty().push(w[0]) =~= w);
    } else {
        lemma_scan_word(p, w.drop_last());
        assert(w.drop_last().push(w.last()) =~= w);
    }
}

proof fn lemma_scan_written(sig: Seq<Option<u8>>)
    ensures
        scan_words(written_signature(sig)) == (
            sig.map_values(|b: Option<u8>| written_token(b)),
            Seq::<char>::empty(),
        ),
    decreases sig.len(),
{
    if sig.len() == 0 {
        assert(sig.map_values(|b: Option<u8>| written_token(b)) =~= Seq::<Seq<char>>::empty());
    } else {
        let init = sig.drop_last();
        lemma_scan_written(init);
        let p = written_signature(init);
        let w = written_token(sig.last());
        match sig.last() {
            Some(x) => {
                lemma_hex_digit_chars(x as nat / 16);
                lemma_hex_digit_chars(x as nat % 16);
                lemma_separators(hex_upper(x as nat / 16));
                lemma_separators(hex_upper(x as nat % 16));
            },
            None => {
                lemma_separators('?');
            },
        }
        assert forall|k: int| 0 <= k < w.len() implies !is_white_space(#[trigger] w[k]) by {
            if sig.last() is Some {
                lemma_separators(w[k]);
            } else {
                lemma_separators('?');
            }
        }
        lemma_scan_word(p, w);
        let s = written_signature(sig);
        assert(s.drop_last() =~= p + w);
        lemma_separators(' ');
        assert(s.last() == ' ');
        assert(sig.map_values(|b: Option<u8>| written_token(b)) =~= init.map_values(
            |b: Option<u8>| written_token(b),
        ).push(w));
    }
}

proof fn lemma_parse_written_tokens(sig: Seq<Option<u8>>)
    ensures
        parse_tokens(sig.map_values(|b: Option<u8>| written_token(b))) == Some(sig),
    decreases sig.len(),
{
    let ws = sig.map_values(|b: Option<u8>| written_token(b));
    if sig.len() == 0 {
        assert(sig =~= Seq::<Option<u8>>::empty());
    } else {
        let init = sig.drop_last();
        lemma_parse_written_tokens(init);
        assert(ws.drop_last() =~= init.map_values(|b: Option<u8>| written_token(b)));
        match sig.last() {
            Some(x) => lemma_hex_token(x),
            None => lemma_hex_token(0),
        }
        assert(init.push(sig.last()) =~= sig);
    }
}

/// Any byte signature, written out one token per byte (`?` for a wildcard,
/// two hex digits otherwise) with whitespace between the tokens, reads back
/// as exactly that signature: one byte per written token, of the value the
/// two digits give.
pub proof fn lemma_written_signature_parses(sig: Seq<Option<u8>>)
    ensures
        parse_signature(written_signature(sig)) == Some(sig),
        split_white_space(written_signature(sig)).len() == sig.len(),
{
    lemma_scan_written(sig);
    lemma_parse_written_tokens(sig);
}

/// Appends the fragment of the token `raw[start..end]` to `res`.
fn append_token(res: &mut String, raw: &str, start: usize, end: usize)
    requires
        start < end <= raw@.len(),
    ensures
        final(res)@ == old(res)@ + token_pattern(raw@.subrange(start as int, end as int)),
{
    let ghost t = raw@.subrange(start as int, end as int);
    if end - start == 1 && raw.get_char(start) == '?' {
        assert(t =~= seq!['?']);
        let dot = ".";
        proof {
            reveal_strlit(".");
        }
        assert(dot@ =~= seq!['.']);
        res.append(dot);
    } else {
        assert(t != seq!['?']) by {
            if end - start == 1 {
                assert(t[0] == raw@[start as int]);
            }
        }
        let esc = "\\x";
        proof {
            reveal_strlit("\\x");
        }
        assert(esc@ =~= seq!['\\', 'x']);
        res.append(esc);
        res.append(raw.substring_char(start, end));
        assert(final(res)@ =~= old(res)@ + token_pattern(t));
    }
}

/// Builds the byte regex pattern of a textual signature: whitespace-separated
/// tokens, `?` for any byte, otherwise the hex digits of the byte.
pub fn signature_to_pattern(raw: &str) -> (res: String)
    ensures
        res@ == signature_pattern(raw@),
{
    let n = raw.unicode_len();
    let mut res = String::new();
    let prefix = "(?s-u)";
    proof {
        reveal_strlit("(?s-u)");
    }
    res.append(prefix);
    assert(raw@.take(0) =~= Seq::<char>::empty());
    assert(res@ =~= regex_prefix() + join_patterns(Seq::empty()));
    let mut start: usize = 0;
    let mut i: usize = 0;
    while i < n
        invariant
            n == raw@.len(),
            start <= i <= n,
            scan_words(raw@.take(i as int)).1 == raw@.subrange(start as int, i as int),
            res@ == regex_prefix() + join_patterns(scan_words(raw@.take(i as int)).0),
        decreases n - i,
    {
        let c = raw.get_char(i);
        let ghost prev = scan_words(raw@.take(i as int));
        assert(raw@.take(i + 1).drop_last() =~= raw@.take(i as int));
        assert(raw@.take(i + 1).last() == c);
        if is_white_space_char(c) {
            if start < i {
                append_token(&mut res, raw, start, i);
                let ghost done = prev.0.push(prev.1);
                assert(done.drop_last() =~= prev.0);
                assert(res@ =~= regex_prefix() + join_patterns(done));
            }
            start = i + 1;
            assert(raw@.subrange(start as int, (i + 1) as int) =~= Seq::<char>::empty());
        } else {
            assert(raw@.subrange(start as int, (i + 1) as int) =~= raw@.subrange(
                start as int,
                i as int,
            ).push(c));
        }
        i = i + 1;
    }
    assert(raw@.take(n as int) =~= raw@);
    if start < n {
        let ghost sc = scan_words(raw@);
        append_token(&mut res, raw, start, n);
        let ghost done = sc.0.push(sc.1);
        assert(done.drop_last() =~= sc.0);
        assert(res@ =~= regex_prefix() + join_patterns(done));
    }
    res
}

} // verus!
