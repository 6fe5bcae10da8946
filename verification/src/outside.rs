//! What this crate takes from other crates, and what it relies on there.

use rand::distributions::DistString;
use vstd::prelude::*;

verus! {

/// The decimal digit for `d`.
pub open spec fn digit(d: nat) -> char {
    (48 + d) as char
}

/// The decimal digits of `n`, without leading zeros.
pub open spec fn decimal(n: nat) -> Seq<char>
    decreases n,
{
    if n < 10 {
        seq![digit(n)]
    } else {
        decimal(n / 10).push(digit(n % 10))
    }
}

/// The hexadecimal digit for `d`, in lower case.
pub open spec fn hex_digit(d: int) -> char {
    if d < 10 {
        (48 + d) as char
    } else {
        (87 + d) as char
    }
}

/// How a character is written inside a JSON string.
pub open spec fn json_escape(c: char) -> Seq<char> {
    if c == '"' {
        seq!['\\', '"']
    } else if c == '\\' {
        seq!['\\', '\\']
    } else if c == '\u{8}' {
        seq!['\\', 'b']
    } else if c == '\t' {
        seq!['\\', 't']
    } else if c == '\n' {
        seq!['\\', 'n']
    } else if c == '\u{c}' {
        seq!['\\', 'f']
    } else if c == '\r' {
        seq!['\\', 'r']
    } else if 32 > c as int {
        seq!['\\', 'u', '0', '0', hex_digit(c as int / 16), hex_digit(c as int % 16)]
    } else {
        seq![c]
    }
}

/// The inside of a JSON string.
pub open spec fn json_escaped(s: Seq<char>) -> Seq<char>
    decreases s.len(),
{
    if s.len() == 0 {
        seq![]
    } else {
        json_escape(s[0]) + json_escaped(s.drop_first())
    }
}

/// The JSON string for `s`.
pub open spec fn json_string(s: Seq<char>) -> Seq<char> {
    seq!['"'] + json_escaped(s) + seq!['"']
}

/// `serde_json::to_string` of a string: the text between quotation marks, with quotation marks,
/// backslashes and the control characters below U+0020 escaped. It does not fail.
#[verifier::external_body]
pub(crate) fn string_to_json(s: &str) -> (text: String)
    ensures
        text@ == json_string(s@),
{
    serde_json::to_string(s).expect("should serialize to string")
}

/// `serde_json::to_string` of an integer: its decimal digits. It does not fail.
#[verifier::external_body]
pub(crate) fn number_to_json(n: u32) -> (text: String)
    ensures
        text@ == decimal(n as nat),
{
    serde_json::to_string(&n).expect("should serialize to string")
}

/// Whether `c` is an ASCII letter or digit.
pub open spec fn is_alphanumeric(c: char) -> bool {
    'A' <= c <= 'Z' || 'a' <= c <= 'z' || '0' <= c <= '9'
}

/// `sample_string` of `rand::distributions::Alphanumeric` with the thread's generator: as many
/// ASCII letters and digits as asked for. Which ones is left to chance.
#[verifier::external_body]
pub(crate) fn random_alphanumeric(len: usize) -> (s: String)
    ensures
        s@.len() == len,
        forall|i: int| 0 <= i < s@.len() ==> is_alphanumeric(#[trigger] s@[i]),
{
    rand::distributions::Alphanumeric.sample_string(&mut rand::thread_rng(), len)
}

/// `rand::random`: a number that is left to chance. Nothing is claimed of it.
#[verifier::external_body]
pub(crate) fn random_number() -> u32 {
    rand::random::<u32>()
}

/// A hash set of the `scc` crate.
#[verifier::external_type_specification]
#[verifier::external_body]
#[verifier::reject_recursive_types(K)]
#[verifier::reject_recursive_types(H)]
pub struct ExSccHashSet<K, H>(scc::HashSet<K, H>) where H: std::hash::BuildHasher;

/// The elements of a hash set of numbers.
pub uninterp spec fn numbers_in(set: scc::HashSet<u32>) -> Set<u32>;

/// `scc::HashSet::new`: a set without elements.
#[verifier::external_body]
pub(crate) fn new_number_set() -> (set: scc::HashSet<u32>)
    ensures
        numbers_in(set) == Set::<u32>::empty(),
{
    scc::HashSet::new()
}

/// `scc::HashSet::insert`: the number is an element afterwards, and the result tells whether it
/// was none before. The set is borrowed exclusively, so nobody else changes it meanwhile.
#[verifier::external_body]
pub(crate) fn insert_number(set: &mut scc::HashSet<u32>, n: u32) -> (inserted: bool)
    ensures
        inserted == !numbers_in(*old(set)).contains(n),
        numbers_in(*final(set)) == numbers_in(*old(set)).insert(n),
{
    set.insert(n).is_ok()
}

/// A hash map of the `scc` crate.
#[verifier::external_type_specification]
#[verifier::external_body]
#[verifier::reject_recursive_types(K)]
#[verifier::reject_recursive_types(V)]
#[verifier::reject_recursive_types(H)]
pub struct ExSccHashMap<K, V, H>(scc::HashMap<K, V, H>) where H: std::hash::BuildHasher;

/// The entries of a hash map from strings to numbers.
pub uninterp spec fn entries_of(table: scc::HashMap<String, u32>) -> Map<Seq<char>, u32>;

/// `scc::HashMap::new`: a map without entries.
#[verifier::external_body]
pub(crate) fn new_table() -> (table: scc::HashMap<String, u32>)
    ensures
        entries_of(table).dom() == Set::<Seq<char>>::empty(),
{
    scc::HashMap::new()
}

/// `scc::HashMap::insert`: adds the entry if the key has none, and else leaves the map as it is;
/// the result tells which. The map is borrowed exclusively, so nobody else changes it meanwhile.
#[verifier::external_body]
pub(crate) fn insert_entry(table: &mut scc::HashMap<String, u32>, key: String, value: u32) -> (
    inserted: bool)
    ensures
        inserted == !entries_of(*old(table)).contains_key(key@),
        entries_of(*final(table)) == (if inserted {
            entries_of(*old(table)).insert(key@, value)
        } else {
            entries_of(*old(table))
        }),
{
    table.insert(key, value).is_ok()
}

/// `scc::HashMap::get`: the value of the key's entry, if it has one.
#[verifier::external_body]
pub(crate) fn get_entry(table: &scc::HashMap<String, u32>, key: &str) -> (value: Option<u32>)
    ensures
        value == (if entries_of(*table).contains_key(key@) {
            Some(entries_of(*table)[key@])
        } else {
            None
        }),
{
    table.get(key).map(|entry| *entry.get())
}

/// `scc::HashMap::remove`: takes the key's entry out, if it has one, and returns its value. The
/// map is borrowed exclusively, so nobody else changes it meanwhile.
#[verifier::external_body]
pub(crate) fn remove_entry(table: &mut scc::HashMap<String, u32>, key: &str) -> (value: Option<u32>)
    ensures
        entries_of(*final(table)) == entries_of(*old(table)).remove(key@),
        value == (if entries_of(*old(table)).contains_key(key@) {
            Some(entries_of(*old(table))[key@])
        } else {
            None
        }),
{
    table.remove(key).map(|entry| entry.1)
}

/// `scc::HashMap::is_empty`: whether the map has no entries.
#[verifier::external_body]
pub(crate) fn has_no_entries(table: &scc::HashMap<String, u32>) -> (empty: bool)
    ensures
        empty == (entries_of(*table).dom() == Set::<Seq<char>>::empty()),
{
    table.is_empty()
}

} // verus!
