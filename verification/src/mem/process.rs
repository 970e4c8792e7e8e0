//! The target process: finding it among the snapshot entries by name, its
//! identity, and the cache of its loaded modules.
use crate::mem::Constructor;
use vstd::prelude::*;

verus! {

/// UTF-16 decoding: code units outside `0xD800..0xE000` stand for
/// themselves, a high surrogate followed by a low surrogate stands for one
/// supplementary character, and any other surrogate makes the text invalid.
pub open spec fn utf16_decode(u: Seq<u16>) -> Option<Seq<char>>
    decreases u.len(),
{
    if u.len() == 0 {
        Some(Seq::empty())
    } else if u[0] < 0xD800 || u[0] >= 0xE000 {
        match utf16_decode(u.skip(1)) {
            Some(rest) => Some(seq![u[0] as char] + rest),
            None => None,
        }
    } else if u[0] < 0xDC00 && u.len() >= 2 && 0xDC00 <= u[1] < 0xE000 {
        let c = (0x10000 + (u[0] - 0xD800) * 0x400 + (u[1] - 0xDC00)) as char;
        match utf16_decode(u.skip(2)) {
            Some(rest) => Some(seq![c] + rest),
            None => None,
        }
    } else {
        None
    }
}

/// Text without surrogates decodes unit by unit: each code unit is the
/// character with that number.
pub proof fn lemma_utf16_without_surrogates(u: Seq<u16>)
    requires
        forall|k: int| 0 <= k < u.len() ==> #[trigger] u[k] < 0xD800 || u[k] >= 0xE000,
    ensures
        utf16_decode(u) == Some(u.map_values(|x: u16| x as char)),
    decreases u.len(),
{
    if u.len() > 0 {
        let rest = u.skip(1);
        assert forall|k: int| 0 <= k < rest.len() implies #[trigger] rest[k] < 0xD800 || rest[k]
            >= 0xE000 by {
            assert(rest[k] == u[k + 1]);
        }
        lemma_utf16_without_surrogates(rest);
        assert(seq![u[0] as char] + rest.map_values(|x: u16| x as char) =~= u.map_values(
            |x: u16| x as char,
        ));
    } else {
        assert(u.map_values(|x: u16| x as char) =~= Seq::<char>::empty());
    }
}

/// A high surrogate followed by a low surrogate decodes to the one
/// supplementary character they encode; a lone surrogate makes the text
/// invalid.
pub proof fn lemma_utf16_surrogates(hi: u16, lo: u16, rest: Seq<u16>)
    requires
        0xD800 <= hi < 0xDC00,
        0xDC00 <= lo < 0xE000,
    ensures
        utf16_decode(seq![hi, lo] + rest) == match utf16_decode(rest) {
            Some(r) => Some(seq![(0x10000 + (hi - 0xD800) * 0x400 + (lo - 0xDC00)) as char] + r),
            None => None,
        },
        utf16_decode(seq![lo] + rest) is None,
        utf16_decode(seq![hi]) is None,
{
    assert((seq![hi, lo] + rest).skip(2) =~= rest);
}

/// Calls `String::from_utf16`.
///
/// Trusted: as its documentation says, it decodes valid UTF-16
/// (`utf16_decode`) and fails exactly on invalid data.
#[verifier::external_body]
fn decode_utf16(units: &[u16]) -> (r: Option<String>)
    ensures
        match r {
            Some(s) => utf16_decode(units@) == Some(s@),
            None => utf16_decode(units@) is None,
        },
{
    String::from_utf16(units).ok()
}

/// One entry of a process snapshot (`PROCESSENTRY32W`): the process id and
/// the UTF-16 buffer of the executable's name.
pub struct ProcessEntry {
    pub process_id: u32,
    pub exe_file: Vec<u16>,
}

/// The length in UTF-16 code units of the executable name buffer of a
/// snapshot entry (`MAX_PATH`).
pub const MAX_PATH: usize = 260;

impl Constructor for ProcessEntry {
    /// A blank entry, to be filled in by the snapshot: id 0 and a name
    /// buffer of `MAX_PATH` zero code units.
    fn new() -> (e: Self)
        ensures
            e.process_id == 0,
            e.exe_file@ == Seq::new(MAX_PATH as nat, |i: int| 0u16),
    {
        let mut exe_file: Vec<u16> = Vec::new();
        while exe_file.len() < MAX_PATH
            invariant
                exe_file@.len() <= MAX_PATH,
                forall|i: int| 0 <= i < exe_file@.len() ==> exe_file@[i] == 0u16,
            decreases MAX_PATH - exe_file@.len(),
        {
            exe_file.push(0);
        }
        assert(exe_file@ =~= Seq::new(MAX_PATH as nat, |i: int| 0u16));
        ProcessEntry { process_id: 0, exe_file }
    }
}

/// The executable name of an entry; an undecodable buffer reads as the empty
/// name.
pub open spec fn entry_name(e: ProcessEntry) -> Seq<char> {
    match utf16_decode(e.exe_file@) {
        Some(s) => s,
        None => Seq::empty(),
    }
}

/// `needle` occurs somewhere in `hay`.
pub open spec fn contains_seq(hay: Seq<char>, needle: Seq<char>) -> bool {
    exists|i: int|
        0 <= i && i + needle.len() <= hay.len() && #[trigger] hay.subrange(i, i + needle.len())
            == needle
}

/// Every character of `needle` appears, in order and without gaps, in `hay`
/// from position `i` on.
pub open spec fn occurs_at(hay: Seq<char>, needle: Seq<char>, i: int) -> bool {
    &&& 0 <= i
    &&& i + needle.len() <= hay.len()
    &&& forall|j: int| 0 <= j < needle.len() ==> #[trigger] hay[i + j] == needle[j]
}

/// Containment means that the whole needle occurs, character by character,
/// at some position of the haystack; in particular the needle is no longer
/// than the haystack, and any text placed around the needle contains it.
pub proof fn lemma_contains_is_occurrence(hay: Seq<char>, needle: Seq<char>)
    ensures
        contains_seq(hay, needle) <==> exists|i: int| occurs_at(hay, needle, i),
        contains_seq(hay, needle) ==> needle.len() <= hay.len(),
{
    if contains_seq(hay, needle) {
        let i = choose|i: int|
            0 <= i && i + needle.len() <= hay.len() && #[trigger] hay.subrange(i, i + needle.len())
                == needle;
        assert forall|j: int| 0 <= j < needle.len() implies #[trigger] hay[i + j] == needle[j] by {
            assert(hay.subrange(i, i + needle.len())[j] == hay[i + j]);
        }
        assert(occurs_at(hay, needle, i));
    }
    if exists|i: int| occurs_at(hay, needle, i) {
        let i = choose|i: int| occurs_at(hay, needle, i);
        let sub = hay.subrange(i, i + needle.len());
        assert forall|k: int| 0 <= k < needle.len() implies sub[k] == needle[k] by {
            assert(hay[i + k] == needle[k]);
        }
        assert(sub =~= needle);
    }
}

/// A name placed anywhere inside a text is contained in it.
pub proof fn lemma_contains_embedded(before: Seq<char>, needle: Seq<char>, after: Seq<char>)
    ensures
        contains_seq(before + needle + after, needle),
{
    let hay = before + needle + after;
    assert(occurs_at(hay, needle, before.len() as int));
    lemma_contains_is_occurrence(hay, needle);
}

/// The entry's executable name contains `name`.
pub open spec fn entry_matches(e: ProcessEntry, name: Seq<char>) -> bool {
    contains_seq(entry_name(e), name)
}

pub(crate) fn chars_of(s: &str) -> (v: Vec<char>)
    ensures
        v@ == s@,
{
    broadcast use vstd::string::group_string_axioms;

    let mut v: Vec<char> = Vec::new();
    for c in it: s.chars()
        invariant
            it.seq() == s@,
            v@ == it.seq().take(it.index()),
    {
        v.push(c);
        assert(it.seq().take(it.index() + 1) =~= v@);
    }
    v
}

fn contains_chars(hay: &Vec<char>, needle: &Vec<char>) -> (b: bool)
    ensures
        b == contains_seq(hay@, needle@),
{
    let nl = needle.len();
    if nl > hay.len() {
        return false;
    }
    if nl == 0 {
        assert(hay@.subrange(0, 0 + needle@.len() as int) =~= needle@);
        return true;
    }
    let last = hay.len() - nl;
    let mut i: usize = 0;
    while i <= last
        invariant
            nl == needle@.len(),
            nl > 0,
            last + nl == hay.len(),
                hay@.len() == hay.len(),
            forall|k: int| 0 <= k < i ==> #[trigger] hay@.subrange(k, k + nl) != needle@,
        decreases last + 1 - i,
    {
        let mut j: usize = 0;
        let mut same = true;
        while same && j < nl
            invariant
                nl == needle@.len(),
                i <= last,
                last + nl == hay.len(),
                hay@.len() == hay.len(),
                j <= nl,
                same ==> forall|m: int| 0 <= m < j ==> hay@[i + m] == needle@[m],
                !same ==> exists|m: int| 0 <= m < nl && hay@[i + m] != needle@[m],
            decreases nl - j + (if same { 1int } else { 0 }),
        {
            if hay[i + j] != needle[j] {
                same = false;
            } else {
                j = j + 1;
            }
        }
        if same {
            assert(hay@.subrange(i as int, i + nl) =~= needle@);
            return true;
        }
        proof {
            let m = choose|m: int| 0 <= m < nl && hay@[i + m] != needle@[m];
            assert(hay@.subrange(i as int, i + nl)[m] == hay@[i + m]);
        }
        i = i + 1;
    }
    false
}

/// The id of the first snapshot entry whose executable name contains
/// `name`, or `None` when no entry does.
pub fn from_name(entries: &Vec<ProcessEntry>, name: &str) -> (r: Option<u32>)
    ensures
        r matches Some(pid) ==> exists|k: int|
            0 <= k < entries@.len() && entries@[k].process_id == pid && entry_matches(
                entries@[k],
                name@,
            ) && forall|j: int| 0 <= j < k ==> !entry_matches(#[trigger] entries@[j], name@),
        r is None ==> forall|k: int|
            0 <= k < entries@.len() ==> !entry_matches(#[trigger] entries@[k], name@),
{
    let needle = chars_of(name);
    let mut k: usize = 0;
    while k < entries.len()
        invariant
            needle@ == name@,
            k <= entries@.len(),
            forall|j: int| 0 <= j < k ==> !entry_matches(#[trigger] entries@[j], name@),
        decreases entries@.len() - k,
    {
        let entry = &entries[k];
        let pname = match decode_utf16(entry.exe_file.as_slice()) {
            Some(s) => s,
            None => String::new(),
        };
        let hay = chars_of(pname.as_str());
        if contains_chars(&hay, &needle) {
            return Some(entry.process_id);
        }
        k = k + 1;
    }
    None
}

/// A module loaded in the target process.
#[derive(Clone, Copy)]
pub struct Module {
    pub base: usize,
    pub size: usize,
}

/// No two entries share a name.
pub open spec fn names_distinct(s: Seq<(String, Module)>) -> bool {
    forall|i: int, j: int| 0 <= i < j < s.len() ==> s[i].0@ != s[j].0@
}

/// The map from module name to module that a list of entries holds.
pub open spec fn entries_map(s: Seq<(String, Module)>) -> Map<Seq<char>, Module>
    decreases s.len(),
{
    if s.len() == 0 {
        Map::empty()
    } else {
        entries_map(s.drop_last()).insert(s.last().0@, s.last().1)
    }
}

proof fn lemma_entries_map_has(s: Seq<(String, Module)>, i: int)
    requires
        names_distinct(s),
        0 <= i < s.len(),
    ensures
        entries_map(s).contains_key(s[i].0@),
        entries_map(s)[s[i].0@] == s[i].1,
    decreases s.len(),
{
    if i < s.len() - 1 {
        lemma_entries_map_has(s.drop_last(), i);
    }
}

proof fn lemma_entries_map_lacks(s: Seq<(String, Module)>, key: Seq<char>)
    requires
        forall|i: int| 0 <= i < s.len() ==> s[i].0@ != key,
    ensures
        !entries_map(s).contains_key(key),
    decreases s.len(),
{
    if s.len() > 0 {
        lemma_entries_map_lacks(s.drop_last(), key);
    }
}

/// The modules found so far, by name; a name is looked up at most once.
pub struct ModuleCache {
    entries: Vec<(String, Module)>,
}

impl ModuleCache {
    #[verifier::type_invariant]
    spec fn inv(self) -> bool {
        names_distinct(self.entries@)
    }
}

impl View for ModuleCache {
    type V = Map<Seq<char>, Module>;

    closed spec fn view(&self) -> Map<Seq<char>, Module> {
        entries_map(self.entries@)
    }
}

impl ModuleCache {
    /// An empty cache.
    pub fn new() -> (c: Self)
        ensures
            c@ == Map::<Seq<char>, Module>::empty(),
    {
        ModuleCache { entries: Vec::new() }
    }

    /// The cached module of that name.
    pub fn lookup(&self, name: &str) -> (r: Option<Module>)
        ensures
            r == cached(self@, name@),
    {
        proof {
            use_type_invariant(self);
        }
        let key = name.to_owned();
        let mut i: usize = 0;
        while i < self.entries.len()
            invariant
                key@ == name@,
                names_distinct(self.entries@),
                i <= self.entries@.len(),
                forall|j: int| 0 <= j < i ==> self.entries@[j].0@ != name@,
            decreases self.entries@.len() - i,
        {
            if self.entries[i].0 == key {
                proof {
                    lemma_entries_map_has(self.entries@, i as int);
                }
                return Some(self.entries[i].1);
            }
            i = i + 1;
        }
        proof {
            lemma_entries_map_lacks(self.entries@, name@);
        }
        None
    }

    /// Adds a module under a name that is not cached yet.
    pub fn insert(&mut self, name: &str, module: Module)
        requires
            !old(self)@.contains_key(name@),
        ensures
            final(self)@ == old(self)@.insert(name@, module),
    {
        proof {
            use_type_invariant(&*self);
            let s = self.entries@;
            assert forall|i: int| 0 <= i < s.len() implies s[i].0@ != name@ by {
                if s[i].0@ == name@ {
                    lemma_entries_map_has(s, i);
                }
            }
        }
        let ghost before = self.entries@;
        let mut entries = Vec::new();
        std::mem::swap(&mut entries, &mut self.entries);
        entries.push((name.to_owned(), module));
        assert(entries@.drop_last() =~= before);
        self.entries = entries;
    }
}

/// The module cached under `name`, if any.
pub open spec fn cached(m: Map<Seq<char>, Module>, name: Seq<char>) -> Option<Module> {
    if m.contains_key(name) {
        Some(m[name])
    } else {
        None
    }
}

/// One module request against the cache `m`: a cached module is returned
/// and the freshly fetched one ignored; otherwise a fetched module is cached
/// and returned.
pub open spec fn module_request(
    m: Map<Seq<char>, Module>,
    name: Seq<char>,
    fetched: Option<Module>,
) -> (Map<Seq<char>, Module>, Option<Module>) {
    if m.contains_key(name) {
        (m, Some(m[name]))
    } else {
        match fetched {
            Some(x) => (m.insert(name, x), Some(x)),
            None => (m, None),
        }
    }
}

/// The target process.
pub struct Process {
    pub id: u32,
    pub is_wow64: bool,
    pub modules: ModuleCache,
}

impl Process {
    /// The modules looked up and found so far, by name.
    pub open spec fn loaded_modules(&self) -> Map<Seq<char>, Module> {
        self.modules@
    }

    /// The module of that name if it has been found before; otherwise the
    /// caller looks it up in the process and hands it to `get_module`.
    pub fn cached_module(&self, name: &str) -> (r: Option<Module>)
        ensures
            r == cached(self.loaded_modules(), name@),
    {
        self.modules.lookup(name)
    }

    /// The module named `name`: the cached one if there is one, otherwise
    /// `fetched` (the result of looking it up in the process), which is then
    /// cached.
    pub fn get_module(&mut self, name: &str, fetched: Option<Module>) -> (r: Option<Module>)
        ensures
            (final(self).loaded_modules(), r) == module_request(
                old(self).loaded_modules(),
                name@,
                fetched,
            ),
            final(self).id == old(self).id,
            final(self).is_wow64 == old(self).is_wow64,
            forall|k: Seq<char>|
                k != name@ ==> #[trigger] cached(final(self).loaded_modules(), k) == cached(
                    old(self).loaded_modules(),
                    k,
                ),
            r is Some ==> cached(final(self).loaded_modules(), name@) == r,
            old(self).loaded_modules().contains_key(name@) ==> r == cached(
                old(self).loaded_modules(),
                name@,
            ),
    {
        match self.modules.lookup(name) {
            Some(m) => Some(m),
            None => match fetched {
                Some(m) => {
                    self.modules.insert(name, m);
                    Some(m)
                },
                None => None,
            },
        }
    }
}

/// A request touches only its own name: every other name keeps what was
/// cached for it, the requested name ends up holding what was returned, and
/// a name that was cached is answered from the cache.
pub proof fn lemma_request_keeps_other_modules(
    m: Map<Seq<char>, Module>,
    name: Seq<char>,
    fetched: Option<Module>,
    other: Seq<char>,
)
    ensures
        other != name ==> cached(module_request(m, name, fetched).0, other) == cached(m, other),
        module_request(m, name, fetched).1 is Some ==> cached(
            module_request(m, name, fetched).0,
            name,
        ) == module_request(m, name, fetched).1,
        m.contains_key(name) ==> module_request(m, name, fetched).1 == Some(m[name]),
        !m.contains_key(name) ==> module_request(m, name, fetched).1 == fetched,
{
}

/// Requests for different names commute: two modules fetched one after the
/// other are both cached, each under its own name.
pub proof fn lemma_modules_accumulate(
    m: Map<Seq<char>, Module>,
    first: Seq<char>,
    a: Module,
    second: Seq<char>,
    b: Module,
)
    requires
        first != second,
        !m.contains_key(first),
        !m.contains_key(second),
    ensures
        ({
            let m2 = module_request(module_request(m, first, Some(a)).0, second, Some(b)).0;
            cached(m2, first) == Some(a) && cached(m2, second) == Some(b)
        }),
{
}

/// A module, once found, stays: every later request for the same name
/// returns it, leaves the cache as it is, and ignores what was fetched.
pub proof fn lemma_found_module_is_kept(
    m: Map<Seq<char>, Module>,
    name: Seq<char>,
    first: Option<Module>,
    later: Option<Module>,
)
    requires
        module_request(m, name, first).1 is Some,
    ensures
        module_request(module_request(m, name, first).0, name, later) == module_request(
            m,
            name,
            first,
        ),
{
}

/// The process opened as `pid`, given the outcome of querying whether it
/// runs under WOW64 (`None` when the process could not be opened or
/// queried; otherwise the `BOOL` the query wrote).
pub fn from_pid(pid: u32, wow64_query: Option<i32>) -> (r: Option<Process>)
    ensures
        r is Some <==> wow64_query is Some,
        r matches Some(p) ==> {
            &&& p.id == pid
            &&& p.is_wow64 == (wow64_query->0 != 0)
            &&& p.loaded_modules() == Map::<Seq<char>, Module>::empty()
        },
{
    match wow64_query {
        None => None,
        Some(flag) => Some(Process { id: pid, is_wow64: flag != 0, modules: ModuleCache::new() }),
    }
}

} // verus!
