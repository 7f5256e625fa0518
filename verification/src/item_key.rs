//! Unified item identifiers: `{type}:{path}` with the types `raw`,
//! `calc` and `system`, shared by recording and dashboards.

use vstd::prelude::*;
use vstd::string::*;
use crate::text::str_equal;

verus! {

/// The kind of an item.
#[derive(Debug, Clone, Copy, PartialEq, Eq, Hash, Structural)]
pub enum ItemType {
    /// Read directly from a telemetry frame field, e.g. `raw:controls.speed_kmh`.
    Raw,
    /// Computed from telemetry, e.g. `calc:delta_best`.
    Calculated,
    /// System information, e.g. `system:cpu_temp`.
    System,
}

/// The prefix that names each item type.
pub open spec fn item_type_name(t: ItemType) -> Seq<char> {
    match t {
        ItemType::Raw => "raw"@,
        ItemType::Calculated => "calc"@,
        ItemType::System => "system"@,
    }
}

/// The item type a prefix names, if any.
pub open spec fn item_type_named(s: Seq<char>) -> Option<ItemType> {
    if s == "raw"@ {
        Some(ItemType::Raw)
    } else if s == "calc"@ {
        Some(ItemType::Calculated)
    } else if s == "system"@ {
        Some(ItemType::System)
    } else {
        None
    }
}

impl ItemType {
    /// The prefix of this item type.
    pub fn as_str(&self) -> (s: &'static str)
        ensures
            s@ == item_type_name(*self),
    {
        match self {
            ItemType::Raw => "raw",
            ItemType::Calculated => "calc",
            ItemType::System => "system",
        }
    }

    /// The item type whose prefix is `s`.
    pub fn from_str(s: &str) -> (r: Option<Self>)
        ensures
            r == item_type_named(s@),
    {
        if str_equal(s, "raw") {
            Some(ItemType::Raw)
        } else if str_equal(s, "calc") {
            Some(ItemType::Calculated)
        } else if str_equal(s, "system") {
            Some(ItemType::System)
        } else {
            None
        }
    }
}

/// The prefix of each item type names it back.
pub proof fn lemma_item_type_name_roundtrip(t: ItemType)
    ensures
        item_type_named(item_type_name(t)) == Some(t),
{
    reveal_strlit("raw");
    reveal_strlit("calc");
    reveal_strlit("system");
    match t {
        ItemType::Raw => {},
        ItemType::Calculated => {
            assert("calc"@ != "raw"@) by { assert("calc"@.len() != "raw"@.len()); }
        },
        ItemType::System => {
            assert("system"@ != "raw"@) by { assert("system"@.len() != "raw"@.len()); }
            assert("system"@ != "calc"@) by { assert("system"@.len() != "calc"@.len()); }
        },
    }
}

/// A unified item key, `{type}:{name}`.
#[derive(Debug, Clone, PartialEq, Eq, Hash)]
pub struct ItemKey {
    pub item_type: ItemType,
    pub name: String,
}

/// `s` holds no `:`.
pub open spec fn colon_free(s: Seq<char>) -> bool {
    forall|j: int| 0 <= j < s.len() ==> s[j] != ':'
}

/// What parsing a key gives: split at the first `:`, the part before must
/// name an item type and the part after must not be empty.
pub open spec fn parse_item_key(k: Seq<char>) -> Option<(ItemType, Seq<char>)> {
    if colon_free(k) {
        None
    } else {
        let i = choose|i: int| 0 <= i < k.len() && k[i] == ':' && colon_free(k.subrange(0, i));
        let name = k.subrange(i + 1, k.len() as int);
        match item_type_named(k.subrange(0, i)) {
            None => None,
            Some(t) => if name.len() == 0 { None } else { Some((t, name)) },
        }
    }
}

/// The text of a key: its type's prefix, `:`, its name.
pub open spec fn item_key_text(t: ItemType, name: Seq<char>) -> Seq<char> {
    item_type_name(t) + ":"@ + name
}

impl ItemKey {
    /// Parse `{raw|calc|system}:{name}`.
    pub fn parse(key: &str) -> (r: Option<Self>)
        ensures
            match parse_item_key(key@) {
                None => r is None,
                Some((t, name)) => r is Some && r->Some_0.item_type == t && r->Some_0.name@ == name,
            },
    {
        let n = key.unicode_len();
        let mut i: usize = 0;
        while i < n
            invariant
                i <= n,
                n == key@.len(),
                colon_free(key@.subrange(0, i as int)),
            ensures
                i <= n,
                colon_free(key@.subrange(0, i as int)),
                i == n || key@[i as int] == ':',
            decreases n - i,
        {
            if key.get_char(i) == ':' {
                break;
            }
            assert(key@.subrange(0, i + 1) =~= key@.subrange(0, i as int).push(key@[i as int]));
            i = i + 1;
        }
        if i == n {
            assert(key@.subrange(0, n as int) =~= key@);
            return None;
        }
        proof {
            let k = key@;
            assert(0 <= i < k.len() && k[i as int] == ':' && colon_free(k.subrange(0, i as int)));
            let c = choose|j: int| 0 <= j < k.len() && k[j] == ':' && colon_free(k.subrange(0, j));
            if c < i {
                assert(k.subrange(0, i as int)[c] == k[c]);
            } else if c > i {
                assert(k.subrange(0, c)[i as int] == k[i as int]);
            }
            assert(c == i);
        }
        let prefix = key.substring_char(0, i);
        let name = key.substring_char(i + 1, n);
        let item_type = match ItemType::from_str(prefix) {
            Some(t) => t,
            None => return None,
        };
        if name.is_empty() {
            return None;
        }
        Some(ItemKey { item_type, name: String::from_str(name) })
    }

    /// A key of the given type and name.
    pub fn new(item_type: ItemType, name: String) -> (r: Self)
        ensures
            r.item_type == item_type,
            r.name@ == name@,
    {
        ItemKey { item_type, name }
    }

    /// Whether this is a raw item.
    pub fn is_raw(&self) -> (r: bool)
        ensures
            r == (self.item_type == ItemType::Raw),
    {
        match self.item_type {
            ItemType::Raw => true,
            _ => false,
        }
    }

    /// Whether this is a calculated item.
    pub fn is_calculated(&self) -> (r: bool)
        ensures
            r == (self.item_type == ItemType::Calculated),
    {
        match self.item_type {
            ItemType::Calculated => true,
            _ => false,
        }
    }

    /// Whether this is a system item.
    pub fn is_system(&self) -> (r: bool)
        ensures
            r == (self.item_type == ItemType::System),
    {
        match self.item_type {
            ItemType::System => true,
            _ => false,
        }
    }

    /// The key's text, `{type}:{name}`.
    pub fn to_string(&self) -> (s: String)
        ensures
            s@ == item_key_text(self.item_type, self.name@),
    {
        let mut s = String::from_str(self.item_type.as_str());
        s.append(":");
        s.append(self.name.as_str());
        s
    }
}

/// Parsing the text of a key gives the key back.
pub proof fn lemma_item_key_text_parses(t: ItemType, name: Seq<char>)
    requires
        name.len() > 0,
    ensures
        parse_item_key(item_key_text(t, name)) == Some((t, name)),
{
    reveal_strlit("raw");
    reveal_strlit("calc");
    reveal_strlit("system");
    reveal_strlit(":");
    lemma_item_type_name_roundtrip(t);
    let k = item_key_text(t, name);
    let p = item_type_name(t);
    let i = p.len() as int;
    assert(k[i] == ':');
    assert(colon_free(p));
    assert(k.subrange(0, i) =~= p);
    assert(!colon_free(k));
    let c = choose|j: int| 0 <= j < k.len() && k[j] == ':' && colon_free(k.subrange(0, j));
    if c < i {
        assert(k.subrange(0, c + 1)[c] == k[c]);
        assert(k[c] == p[c]);
    } else if c > i {
        assert(k.subrange(0, c)[i] == k[i]);
    }
    assert(c == i);
    assert(k.subrange(i + 1, k.len() as int) =~= name);
}

/// A text parses to a key exactly when it is the text of that key with a
/// name that is not empty: `{type}:{name}`.
pub proof fn lemma_item_key_parse_exact(s: Seq<char>, t: ItemType, name: Seq<char>)
    ensures
        parse_item_key(s) == Some((t, name)) <==> (s == item_key_text(t, name) && name.len() > 0),
{
    if parse_item_key(s) == Some((t, name)) {
        lemma_parsed_key_text(s, t, name);
    }
    if s == item_key_text(t, name) && name.len() > 0 {
        lemma_item_key_text_parses(t, name);
    }
}

/// A key that parses is written back as the very text it was parsed from.
pub proof fn lemma_parsed_key_text(s: Seq<char>, t: ItemType, name: Seq<char>)
    requires
        parse_item_key(s) == Some((t, name)),
    ensures
        item_key_text(t, name) == s,
{
    let i = lemma_parsed_key_split(s, t, name);
    lemma_named_prefix(s.subrange(0, i), t);
    lemma_split_at_colon(s, i);
}

/// Where a key that parses is split: at a colon, the type's prefix before
/// it and the name after it.
proof fn lemma_parsed_key_split(s: Seq<char>, t: ItemType, name: Seq<char>) -> (i: int)
    requires
        parse_item_key(s) == Some((t, name)),
    ensures
        0 <= i < s.len(),
        s[i] == ':',
        item_type_named(s.subrange(0, i)) == Some(t),
        s.subrange(i + 1, s.len() as int) == name,
{
    assert(!colon_free(s));
    assert(s.subrange(0, s.len() as int) =~= s);
    let first = lemma_first_colon(s, s.len() as int);
    assert(0 <= first < s.len() && s[first] == ':' && colon_free(s.subrange(0, first)));
    let i = choose|i: int| 0 <= i < s.len() && s[i] == ':' && colon_free(s.subrange(0, i));
    assert(0 <= i < s.len() && s[i] == ':' && colon_free(s.subrange(0, i)));
    let prefix = s.subrange(0, i);
    let rest = s.subrange(i + 1, s.len() as int);
    let r = parse_item_key(s);
    assert(r == match item_type_named(prefix) {
        None => None,
        Some(u) => if rest.len() == 0 { None } else { Some((u, rest)) },
    });
    let o = item_type_named(prefix);
    assert(o is Some);
    let u = o->Some_0;
    assert(r == Some((u, rest)));
    i
}

/// A text that holds a colon has a first one.
proof fn lemma_first_colon(s: Seq<char>, k: int) -> (i: int)
    requires
        0 <= k <= s.len(),
        !colon_free(s.subrange(0, k)),
    ensures
        0 <= i < k,
        s[i] == ':',
        colon_free(s.subrange(0, i)),
    decreases k,
{
    let j = choose|j: int| 0 <= j < s.subrange(0, k).len() && s.subrange(0, k)[j] == ':';
    assert(s[j] == ':');
    if colon_free(s.subrange(0, j)) {
        j
    } else {
        let i = lemma_first_colon(s, j);
        i
    }
}

/// A prefix that names an item type is that type's prefix.
proof fn lemma_named_prefix(p: Seq<char>, t: ItemType)
    requires
        item_type_named(p) == Some(t),
    ensures
        p == item_type_name(t),
{
}

/// A text is the part before a colon, the colon and the part after.
proof fn lemma_split_at_colon(s: Seq<char>, i: int)
    requires
        0 <= i < s.len(),
        s[i] == ':',
    ensures
        s.subrange(0, i) + ":"@ + s.subrange(i + 1, s.len() as int) == s,
{
    reveal_strlit(":");
    assert(s.subrange(0, i) + ":"@ + s.subrange(i + 1, s.len() as int) =~= s);
}

} // verus!
