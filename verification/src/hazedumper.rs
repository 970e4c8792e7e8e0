//! The game offsets the runtime works with, as hazedumper publishes them,
//! and reading them from hazedumper's JSON output.
use crate::mem::process::chars_of;
use crate::mem::signature::is_white_space;
use crate::mem::signature::is_white_space_char;
use vstd::prelude::*;

verus! {

/// Offsets of global objects, relative to the base of `client.dll`.
#[allow(non_snake_case)]
pub struct Signatures {
    pub dwEntityList: Option<u32>,
    pub dwForceJump: Option<u32>,
}

/// Offsets of fields of an entity, relative to the entity's base.
#[allow(non_snake_case)]
pub struct Netvars {
    pub m_vecOrigin: Option<u32>,
    pub m_bSpotted: Option<u32>,
    pub m_iHealth: Option<u32>,
    pub m_iTeamNum: Option<u32>,
}

/// The offsets of one game build.
pub struct Haze {
    pub signatures: Signatures,
    pub netvars: Netvars,
}

/// An ASCII decimal digit.
pub open spec fn is_ascii_digit(c: char) -> bool {
    0x30 <= c as u32 <= 0x39
}

/// The first position at or after `i` that does not hold whitespace.
pub open spec fn skip_white_space(t: Seq<char>, i: int) -> int
    decreases t.len() - i,
{
    if 0 <= i < t.len() && is_white_space(t[i]) {
        skip_white_space(t, i + 1)
    } else {
        i
    }
}

/// The first position at or after `i` that does not hold a decimal digit.
pub open spec fn skip_digits(t: Seq<char>, i: int) -> int
    decreases t.len() - i,
{
    if 0 <= i < t.len() && is_ascii_digit(t[i]) {
        skip_digits(t, i + 1)
    } else {
        i
    }
}

/// The number written with the decimal digits `s`.
pub open spec fn digits_value(s: Seq<char>) -> nat
    decreases s.len(),
{
    if s.len() == 0 {
        0
    } else {
        digits_value(s.drop_last()) * 10 + ((s.last() as u32) - 0x30) as nat
    }
}

/// `name` in double quotes, as a JSON key.
pub open spec fn quoted(name: Seq<char>) -> Seq<char> {
    seq!['"'] + name + seq!['"']
}

/// The number of an entry `"name": digits` of `t` that starts at `i`
/// (whitespace is allowed around the colon; all following digits count).
pub open spec fn entry_at(t: Seq<char>, name: Seq<char>, i: int) -> Option<nat> {
    let q = quoted(name);
    let a = i + q.len();
    let c = skip_white_space(t, a);
    let d = skip_white_space(t, c + 1);
    let e = skip_digits(t, d);
    if 0 <= i && a <= t.len() && t.subrange(i, a) == q && c < t.len() && t[c] == ':' && d < e {
        Some(digits_value(t.subrange(d, e)))
    } else {
        None
    }
}

/// The first entry for `name` starts at `i`.
pub open spec fn is_first_entry(t: Seq<char>, name: Seq<char>, i: int) -> bool {
    &&& entry_at(t, name, i) is Some
    &&& forall|k: int| 0 <= k < i ==> #[trigger] entry_at(t, name, k) is None
}

/// The offset that the first entry for `name` gives, if it fits in 32 bits;
/// `None` without such an entry.
pub open spec fn first_entry_value(t: Seq<char>, name: Seq<char>) -> Option<u32> {
    if exists|i: int| is_first_entry(t, name, i) {
        let i = choose|i: int| is_first_entry(t, name, i);
        let v = entry_at(t, name, i)->0;
        if v <= u32::MAX {
            Some(v as u32)
        } else {
            None
        }
    } else {
        None
    }
}

/// The decimal digit of a number below ten.
pub open spec fn decimal_digit(d: nat) -> char {
    seq!['0', '1', '2', '3', '4', '5', '6', '7', '8', '9'][d as int]
}

/// The usual decimal writing of `n`, without leading zeros.
pub open spec fn decimal(n: nat) -> Seq<char>
    decreases n,
{
    if n < 10 {
        seq![decimal_digit(n)]
    } else {
        decimal(n / 10).push(decimal_digit(n % 10))
    }
}

/// The one-entry JSON object `{"name":n}`, with `sep` after the colon.
pub open spec fn one_entry_object(name: Seq<char>, sep: Seq<char>, n: nat) -> Seq<char> {
    seq!['{'] + quoted(name) + seq![':'] + sep + decimal(n) + seq!['}']
}

proof fn lemma_decimal_digit(k: nat)
    requires
        k < 10,
    ensures
        is_ascii_digit(decimal_digit(k)),
        (decimal_digit(k) as u32) - 0x30 == k,
{
    let ds = seq!['0', '1', '2', '3', '4', '5', '6', '7', '8', '9'];
    assert(ds[0] == '0' && ds[1] == '1' && ds[2] == '2' && ds[3] == '3' && ds[4] == '4');
    assert(ds[5] == '5' && ds[6] == '6' && ds[7] == '7' && ds[8] == '8' && ds[9] == '9');
}

proof fn lemma_decimal(n: nat)
    ensures
        decimal(n).len() >= 1,
        forall|k: int| 0 <= k < decimal(n).len() ==> is_ascii_digit(#[trigger] decimal(n)[k]),
        digits_value(decimal(n)) == n,
    decreases n,
{
    if n < 10 {
        lemma_decimal_digit(n);
        assert(decimal(n).drop_last() =~= Seq::<char>::empty());
        assert(digits_value(decimal(n)) == digits_value(Seq::<char>::empty()) * 10 + ((
        decimal_digit(n) as u32) - 0x30) as nat);
    } else {
        lemma_decimal_digit(n % 10);
        lemma_decimal(n / 10);
        let p = decimal(n / 10);
        assert(decimal(n).drop_last() =~= p);
        assert(decimal(n).last() == decimal_digit(n % 10));
        assert(digits_value(decimal(n)) == digits_value(p) * 10 + ((decimal_digit(n % 10) as u32)
            - 0x30) as nat);
        assert(n == (n / 10) * 10 + n % 10);
    }
}

proof fn lemma_skip_digit_run(t: Seq<char>, i: int, e: int)
    requires
        0 <= i <= e <= t.len(),
        forall|k: int| i <= k < e ==> is_ascii_digit(#[trigger] t[k]),
        e < t.len() ==> !is_ascii_digit(t[e]),
    ensures
        skip_digits(t, i) == e,
    decreases e - i,
{
    if i < e {
        lemma_skip_digit_run(t, i + 1, e);
    }
}

/// Whitespace after the colon is optional: an object holding the single
/// entry `"name":n`, written with nothing or with a space after the colon,
/// gives `n` for `name` whenever `n` fits in 32 bits.
pub proof fn lemma_one_entry_object(name: Seq<char>, n: nat)
    requires
        n <= u32::MAX,
    ensures
        first_entry_value(one_entry_object(name, Seq::empty(), n), name) == Some(n as u32),
        first_entry_value(one_entry_object(name, seq![' '], n), name) == Some(n as u32),
{
    lemma_one_entry_object_with(name, Seq::empty(), n);
    lemma_one_entry_object_with(name, seq![' '], n);
}

proof fn lemma_one_entry_object_with(name: Seq<char>, sep: Seq<char>, n: nat)
    requires
        n <= u32::MAX,
        sep == Seq::<char>::empty() || sep == seq![' '],
    ensures
        first_entry_value(one_entry_object(name, sep, n), name) == Some(n as u32),
{
    let t = one_entry_object(name, sep, n);
    let q = quoted(name);
    let dd = decimal(n);
    lemma_decimal(n);
    let a: int = 1 + q.len() as int;
    let d: int = a + 1 + sep.len();
    let e: int = d + dd.len();
    assert(t.len() == e + 1);
    assert(t.subrange(1, a) =~= q);
    assert(t[a] == ':');
    assert(skip_white_space(t, a) == a);
    if sep.len() == 1 {
        assert(t[a + 1] == ' ');
        assert(t[d] == dd[0]);
        assert(skip_white_space(t, d) == d);
    } else {
        assert(t[d] == dd[0]);
    }
    assert(skip_white_space(t, a + 1) == d);
    assert forall|k: int| d <= k < e implies is_ascii_digit(#[trigger] t[k]) by {
        assert(t[k] == dd[k - d]);
    }
    assert(t[e] == '}');
    lemma_skip_digit_run(t, d, e);
    assert(t.subrange(d, e) =~= dd);
    assert(entry_at(t, name, 1) == Some(n));
    assert(t.subrange(0, 0 + q.len() as int)[0] == '{');
    assert(entry_at(t, name, 0) is None);
    assert(is_first_entry(t, name, 1));
    let j = choose|j: int| is_first_entry(t, name, j);
    if j < 1 {
        assert(entry_at(t, name, j) is None);
    }
    if j > 1 {
        assert(entry_at(t, name, 1) is None);
    }
}

fn skip_white_space_at(t: &Vec<char>, i: usize) -> (r: usize)
    requires
        i <= t@.len(),
    ensures
        r == skip_white_space(t@, i as int),
        i <= r <= t@.len(),
{
    let mut j = i;
    while j < t.len() && is_white_space_char(t[j])
        invariant
            i <= j <= t@.len(),
            skip_white_space(t@, j as int) == skip_white_space(t@, i as int),
        decreases t@.len() - j,
    {
        j = j + 1;
    }
    j
}

/// Reads the digits at `d`: where they end, and their value if it fits in
/// 32 bits.
fn read_digits(t: &Vec<char>, d: usize) -> (r: (usize, Option<u32>))
    requires
        d <= t@.len(),
    ensures
        r.0 == skip_digits(t@, d as int),
        d <= r.0 <= t@.len(),
        r.1 == (if digits_value(t@.subrange(d as int, r.0 as int)) <= u32::MAX {
            Some(digits_value(t@.subrange(d as int, r.0 as int)) as u32)
        } else {
            None
        }),
{
    let mut j = d;
    let mut value: u64 = 0;
    let mut over = false;
    assert(t@.subrange(d as int, d as int) =~= Seq::<char>::empty());
    while j < t.len() && 0x30 <= t[j] as u32 && t[j] as u32 <= 0x39
        invariant
            d <= j <= t@.len(),
            skip_digits(t@, j as int) == skip_digits(t@, d as int),
            !over ==> value == digits_value(t@.subrange(d as int, j as int)),
            !over ==> value <= u32::MAX,
            over ==> digits_value(t@.subrange(d as int, j as int)) > u32::MAX,
        decreases t@.len() - j,
    {
        let digit = (t[j] as u32 - 0x30) as u64;
        assert(t@.subrange(d as int, j + 1).drop_last() =~= t@.subrange(d as int, j as int));
        if !over {
            let next = value * 10 + digit;
            if next > 0xFFFF_FFFF {
                over = true;
            } else {
                value = next;
            }
        }
        j = j + 1;
    }
    if over {
        (j, None)
    } else {
        (j, Some(value as u32))
    }
}

fn key_at(t: &Vec<char>, name: &Vec<char>, i: usize) -> (b: bool)
    ensures
        b == (i + quoted(name@).len() <= t@.len() && t@.subrange(
            i as int,
            i + quoted(name@).len(),
        ) == quoted(name@)),
{
    let n = name.len();
    let ghost q = quoted(name@);
    assert(q.len() == n + 2);
    if i > t.len() {
        return false;
    }
    let rem = t.len() - i;
    if rem < 2 || rem - 2 < n {
        return false;
    }
    if t[i] != '"' || t[i + n + 1] != '"' {
        assert(t@.subrange(i as int, i + q.len())[0] == t@[i as int]);
        assert(t@.subrange(i as int, i + q.len())[n + 1] == t@[i + n + 1]);
        return false;
    }
    let mut j: usize = 0;
    while j < n
        invariant
            n == name@.len(),
            q == quoted(name@),
            q.len() == n + 2,
            t@.len() == t.len(),
            i + n + 2 <= t@.len(),
            j <= n,
            forall|m: int| 0 <= m < j ==> t@[i + 1 + m] == name@[m],
        decreases n - j,
    {
        if t[i + 1 + j] != name[j] {
            assert(t@.subrange(i as int, i + q.len())[1 + j] == t@[i + 1 + j]);
            assert(q[1 + j] == name@[j as int]);
            return false;
        }
        j = j + 1;
    }
    assert(t@.subrange(i as int, i + q.len()) =~= q);
    true
}

/// The value of the entry for `name` starting at `i`, parsed as a 32-bit
/// offset: `Some(None)` for an entry whose number is too large.
fn entry_value_at(t: &Vec<char>, name: &Vec<char>, i: usize) -> (r: Option<Option<u32>>)
    ensures
        r is Some <==> entry_at(t@, name@, i as int) is Some,
        r matches Some(v) ==> v == (if entry_at(t@, name@, i as int)->0 <= u32::MAX {
            Some((entry_at(t@, name@, i as int)->0) as u32)
        } else {
            None
        }),
{
    if !key_at(t, name, i) {
        return None;
    }
    assert(quoted(name@).len() == name@.len() + 2);
    assert(t@.len() == t.len());
    assert(name@.len() == name.len());
    let a = i + (name.len() + 2);
    let c = skip_white_space_at(t, a);
    if c >= t.len() || t[c] != ':' {
        return None;
    }
    let d = skip_white_space_at(t, c + 1);
    let (e, value) = read_digits(t, d);
    if d >= e {
        return None;
    }
    Some(value)
}

/// The offset stored under `name` in hazedumper's JSON text: the number of
/// the first `"name": digits` entry, if it fits in 32 bits.
pub fn json_offset(text: &str, name: &str) -> (r: Option<u32>)
    ensures
        r == first_entry_value(text@, name@),
{
    let t = chars_of(text);
    let n = chars_of(name);
    let mut i: usize = 0;
    while i < t.len()
        invariant
            t@ == text@,
            n@ == name@,
            i <= t@.len(),
            forall|k: int| 0 <= k < i ==> #[trigger] entry_at(text@, name@, k) is None,
        decreases t@.len() - i,
    {
        match entry_value_at(&t, &n, i) {
            Some(v) => {
                proof {
                    assert(is_first_entry(text@, name@, i as int));
                    let j = choose|j: int| is_first_entry(text@, name@, j);
                    if j < i {
                        assert(entry_at(text@, name@, j) is None);
                    }
                    if i < j {
                        assert(entry_at(text@, name@, i as int) is None);
                    }
                }
                return v;
            },
            None => {},
        }
        i = i + 1;
    }
    proof {
        assert forall|k: int| !is_first_entry(text@, name@, k) by {
            if k >= t@.len() {
                assert(entry_at(text@, name@, k) is None);
            }
        }
    }
    None
}

/// Reads the offsets from hazedumper's JSON text; an offset that is missing
/// stays `None`.
pub fn init_hazedumper(text: &str) -> (h: Haze)
    ensures
        h.signatures.dwEntityList == first_entry_value(text@, "dwEntityList"@),
        h.signatures.dwForceJump == first_entry_value(text@, "dwForceJump"@),
        h.netvars.m_vecOrigin == first_entry_value(text@, "m_vecOrigin"@),
        h.netvars.m_bSpotted == first_entry_value(text@, "m_bSpotted"@),
        h.netvars.m_iHealth == first_entry_value(text@, "m_iHealth"@),
        h.netvars.m_iTeamNum == first_entry_value(text@, "m_iTeamNum"@),
{
    Haze {
        signatures: Signatures {
            dwEntityList: json_offset(text, "dwEntityList"),
            dwForceJump: json_offset(text, "dwForceJump"),
        },
        netvars: Netvars {
            m_vecOrigin: json_offset(text, "m_vecOrigin"),
            m_bSpotted: json_offset(text, "m_bSpotted"),
            m_iHealth: json_offset(text, "m_iHealth"),
            m_iTeamNum: json_offset(text, "m_iTeamNum"),
        },
    }
}

} // verus!
