//! Matching of target signatures against the signatures of named library
//! functions.

use fuzzyhash::FuzzyHash;
use vstd::prelude::*;
use vstd::seq_lib::{
    to_multiset_contains, to_multiset_insert, to_multiset_len, to_multiset_remove,
};
use vstd::utf8::encode_utf8;

use crate::sig::sig_generation::{fuzzy_views, FuzzyFunc, FuzzyFuncView};
use crate::utils::lexical::{
    bytes_le, lemma_lex_le_antisymmetric, lemma_lex_le_total, lemma_lex_le_transitive, lex_le,
};
use crate::utils::text::is_digit;

verus! {

/// A score must be above this threshold for a match to be reported.
pub const MATCH_THRESHOLD: u32 = 25;

/// The highest score a comparison gives.
pub const MAX_SCORE: u32 = 100;

/// The most digits the block size at the head of a hash may have for the
/// hash to be compared.
pub const MAX_BLOCK_SIZE_DIGITS: usize = 8;

/// The byte that parts the fields of a hash.
pub const FIELD_SEPARATOR: u8 = 0x3A;

/// The number of digits `bytes` holds in a row from position `from` on.
pub open spec fn leading_digits_from(bytes: Seq<u8>, from: int) -> int
    decreases bytes.len() - from,
{
    if from < 0 || from >= bytes.len() || !is_digit(bytes[from]) {
        0
    } else {
        1 + leading_digits_from(bytes, from + 1)
    }
}

/// Holds when `bytes` holds `byte` at position `from` or after it.
pub open spec fn holds_byte_from(bytes: Seq<u8>, byte: u8, from: int) -> bool
    decreases bytes.len() - from,
{
    if from < 0 || from >= bytes.len() {
        false
    } else if bytes[from] == byte {
        true
    } else {
        holds_byte_from(bytes, byte, from + 1)
    }
}

/// Holds of the hashes that can be compared: a block size of one to eight
/// digits, a separator, and at least one more separator after it.
pub open spec fn comparable_hash(bytes: Seq<u8>) -> bool {
    let digits = leading_digits_from(bytes, 0);
    &&& 1 <= digits <= MAX_BLOCK_SIZE_DIGITS
    &&& digits < bytes.len()
    &&& bytes[digits] == FIELD_SEPARATOR
    &&& holds_byte_from(bytes, FIELD_SEPARATOR, digits + 1)
}

/// A count of digits is not negative.
pub proof fn lemma_leading_digits_not_negative(bytes: Seq<u8>, from: int)
    ensures
        leading_digits_from(bytes, from) >= 0,
    decreases bytes.len() - from,
{
    if !(from < 0 || from >= bytes.len() || !is_digit(bytes[from])) {
        lemma_leading_digits_not_negative(bytes, from + 1);
    }
}

/// Tells whether a hash can be compared.
pub fn is_comparable_hash(hash: &str) -> (comparable: bool)
    ensures
        comparable == comparable_hash(encode_utf8(hash@)),
{
    let bytes: &[u8] = hash.as_bytes();
    let mut digits: usize = 0;
    while digits < bytes.len() && digits <= MAX_BLOCK_SIZE_DIGITS && bytes[digits] >= 0x30
        && bytes[digits] <= 0x39
        invariant
            digits <= bytes@.len(),
            digits <= MAX_BLOCK_SIZE_DIGITS + 1,
            leading_digits_from(bytes@, 0) == digits + leading_digits_from(bytes@, digits as int),
        decreases bytes@.len() - digits,
    {
        digits = digits + 1;
    }
    proof {
        lemma_leading_digits_not_negative(bytes@, digits as int);
    }
    if digits < 1 || digits > MAX_BLOCK_SIZE_DIGITS || digits >= bytes.len() {
        return false;
    }
    assert(leading_digits_from(bytes@, 0) == digits);
    if bytes[digits] != FIELD_SEPARATOR {
        return false;
    }
    let mut index: usize = digits + 1;
    while index < bytes.len()
        invariant
            digits + 1 <= index <= bytes@.len(),
            1 <= digits <= MAX_BLOCK_SIZE_DIGITS,
            digits < bytes@.len(),
            bytes@ == encode_utf8(hash@),
            bytes@[digits as int] == FIELD_SEPARATOR,
            leading_digits_from(bytes@, 0) == digits,
            holds_byte_from(bytes@, FIELD_SEPARATOR, digits + 1) == holds_byte_from(
                bytes@,
                FIELD_SEPARATOR,
                index as int,
            ),
        decreases bytes@.len() - index,
    {
        if bytes[index] == FIELD_SEPARATOR {
            return true;
        }
        index = index + 1;
    }
    false
}

/// The similarity `fuzzyhash` finds between two hashes; `None` where it
/// reports an error.
pub uninterp spec fn ssdeep_similarity(first: Seq<char>, second: Seq<char>) -> Option<u32>;

/// Calls `fuzzyhash::FuzzyHash::compare` on the two hashes and drops the
/// error value. The crate indexes the three fields of each hash and doubles
/// and multiplies the block sizes in 32 bits; on hashes of the shape
/// required here it does so within bounds. A score it returns is 100 or,
/// from its scoring of two blocks, at most 100. The score is a function of
/// the two hashes alone and is known here only by its name,
/// `ssdeep_similarity`.
#[verifier::external_body]
pub(crate) fn fuzzy_compare(first: &str, second: &str) -> (score: Option<u32>)
    requires
        comparable_hash(encode_utf8(first@)),
        comparable_hash(encode_utf8(second@)),
    ensures
        score == ssdeep_similarity(first@, second@),
        score matches Some(value) ==> value <= MAX_SCORE,
{
    FuzzyHash::compare(first, second).ok()
}

/// The score of a library hash against a target hash: their similarity,
/// where both can be compared.
pub open spec fn match_score(library_hash: Seq<char>, target_hash: Seq<char>) -> Option<u32> {
    if comparable_hash(encode_utf8(library_hash)) && comparable_hash(encode_utf8(target_hash)) {
        ssdeep_similarity(library_hash, target_hash)
    } else {
        None
    }
}

/// Scores a library hash against a target hash. Hashes that cannot be
/// compared have no score.
pub fn hash_score(library_hash: &str, target_hash: &str) -> (score: Option<u32>)
    ensures
        score == match_score(library_hash@, target_hash@),
        score matches Some(value) ==> value <= MAX_SCORE,
{
    if is_comparable_hash(library_hash) && is_comparable_hash(target_hash) {
        fuzzy_compare(library_hash, target_hash)
    } else {
        None
    }
}

/// A candidate name for a function of the target.
#[derive(Clone, Debug, PartialEq, Eq)]
pub struct Symbol {
    /// The name of the library function.
    pub name: String,
    /// The relative virtual address of the target function.
    pub rva: u32,
    /// The similarity of the two signatures.
    pub score: u32,
}

/// What a `Symbol` stands for in contracts.
pub struct SymbolView {
    pub name: Seq<char>,
    pub rva: u32,
    pub score: u32,
}

impl View for Symbol {
    type V = SymbolView;

    open spec fn view(&self) -> SymbolView {
        SymbolView { name: self.name@, rva: self.rva, score: self.score }
    }
}

/// The views of a list of symbols, in order.
pub open spec fn symbol_views(symbols: Seq<Symbol>) -> Seq<SymbolView> {
    symbols.map_values(|symbol: Symbol| symbol@)
}

/// The candidate a score gives: one is reported where the comparison gave a
/// score and the score is above the threshold.
pub open spec fn candidate(name: Seq<char>, rva: u32, score: Option<u32>) -> Option<SymbolView> {
    match score {
        Some(value) => if value > MATCH_THRESHOLD {
            Some(SymbolView { name, rva, score: value })
        } else {
            None
        },
        None => None,
    }
}

/// The view of an optional symbol.
pub open spec fn optional_symbol_view(symbol: Option<Symbol>) -> Option<SymbolView> {
    match symbol {
        Some(found) => Some(found@),
        None => None,
    }
}

impl Symbol {
    /// Makes the candidate a score gives, if it gives one.
    pub fn from_score(name: &str, rva: u32, score: Option<u32>) -> (symbol: Option<Symbol>)
        ensures
            optional_symbol_view(symbol) == candidate(name@, rva, score),
    {
        match score {
            Some(value) => {
                if value > MATCH_THRESHOLD {
                    Some(Symbol { name: name.to_owned(), rva, score: value })
                } else {
                    None
                }
            },
            None => None,
        }
    }

    /// An equal symbol with a name of its own.
    pub fn duplicate(&self) -> (copy: Symbol)
        ensures
            copy == *self,
    {
        Symbol { name: self.name.clone(), rva: self.rva, score: self.score }
    }
}

/// The order symbols are reported in: by address, then by name, then by
/// score.
pub open spec fn symbol_le(a: SymbolView, b: SymbolView) -> bool {
    let a_name = encode_utf8(a.name);
    let b_name = encode_utf8(b.name);
    a.rva < b.rva || (a.rva == b.rva && lex_le(a_name, b_name) && (lex_le(b_name, a_name)
        ==> a.score <= b.score))
}

/// Of two symbols, one comes no later than the other.
pub proof fn lemma_symbol_le_total(a: SymbolView, b: SymbolView)
    ensures
        symbol_le(a, b) || symbol_le(b, a),
{
    lemma_lex_le_total(encode_utf8(a.name), encode_utf8(b.name), 0);
}

/// The order of symbols is transitive.
pub proof fn lemma_symbol_le_transitive(a: SymbolView, b: SymbolView, c: SymbolView)
    requires
        symbol_le(a, b),
        symbol_le(b, c),
    ensures
        symbol_le(a, c),
{
    let a_name = encode_utf8(a.name);
    let b_name = encode_utf8(b.name);
    let c_name = encode_utf8(c.name);
    if a.rva == b.rva && b.rva == c.rva {
        lemma_lex_le_transitive(a_name, b_name, c_name, 0);
        if lex_le(c_name, a_name) {
            lemma_lex_le_transitive(c_name, a_name, b_name, 0);
            lemma_lex_le_transitive(b_name, c_name, a_name, 0);
        }
    }
}

/// Two symbols each of which comes no later than the other are equal.
pub proof fn lemma_symbol_le_antisymmetric(a: SymbolView, b: SymbolView)
    requires
        symbol_le(a, b),
        symbol_le(b, a),
    ensures
        a == b,
{
    let a_name = encode_utf8(a.name);
    let b_name = encode_utf8(b.name);
    lemma_lex_le_antisymmetric(a_name, b_name, 0);
    assert(a_name =~= b_name);
    vstd::utf8::encode_utf8_decode_utf8(a.name);
    vstd::utf8::encode_utf8_decode_utf8(b.name);
}

/// Tells whether `a` comes no later than `b` in the order of symbols.
pub fn symbol_comes_first(a: &Symbol, b: &Symbol) -> (first: bool)
    ensures
        first == symbol_le(a@, b@),
{
    if a.rva != b.rva {
        return a.rva < b.rva;
    }
    let a_name: &[u8] = a.name.as_str().as_bytes();
    let b_name: &[u8] = b.name.as_str().as_bytes();
    if !bytes_le(a_name, b_name) {
        return false;
    }
    if bytes_le(b_name, a_name) {
        a.score <= b.score
    } else {
        true
    }
}

/// Holds when the symbols grow along the list, in the order of symbols.
pub open spec fn is_sorted(symbols: Seq<SymbolView>) -> bool {
    forall|i: int, j: int| 0 <= i < j < symbols.len() ==> symbol_le(symbols[i], symbols[j])
}

/// The position at which `symbol` belongs in a sorted list: after the
/// symbols that come no later, before the others.
fn sorted_position(sorted: &Vec<Symbol>, symbol: &Symbol) -> (position: usize)
    requires
        is_sorted(symbol_views(sorted@)),
    ensures
        position <= sorted@.len(),
        forall|i: int| 0 <= i < position ==> symbol_le(sorted@[i]@, symbol@),
        forall|i: int| position <= i < sorted@.len() ==> !symbol_le(sorted@[i]@, symbol@),
{
    let mut low: usize = 0;
    let mut high: usize = sorted.len();
    while low < high
        invariant
            low <= high <= sorted@.len(),
            is_sorted(symbol_views(sorted@)),
            forall|i: int| 0 <= i < low ==> symbol_le(sorted@[i]@, symbol@),
            forall|i: int| high <= i < sorted@.len() ==> !symbol_le(sorted@[i]@, symbol@),
        decreases high - low,
    {
        let middle: usize = low + (high - low) / 2;
        let ghost views = symbol_views(sorted@);
        if symbol_comes_first(&sorted[middle], symbol) {
            assert forall|i: int| 0 <= i < middle + 1 implies symbol_le(sorted@[i]@, symbol@) by {
                if i < middle {
                    assert(symbol_le(views[i], views[middle as int]));
                    lemma_symbol_le_transitive(sorted@[i]@, sorted@[middle as int]@, symbol@);
                }
            }
            low = middle + 1;
        } else {
            assert forall|i: int| middle <= i < sorted@.len() implies !symbol_le(
                sorted@[i]@,
                symbol@,
            ) by {
                if i > middle && symbol_le(sorted@[i]@, symbol@) {
                    assert(symbol_le(views[middle as int], views[i]));
                    lemma_symbol_le_transitive(sorted@[middle as int]@, sorted@[i]@, symbol@);
                }
            }
            high = middle;
        }
    }
    low
}

/// A symbol put at its position in a sorted list leaves the list sorted.
proof fn lemma_insert_keeps_sorted(before: Seq<SymbolView>, position: int, symbol: SymbolView)
    requires
        is_sorted(before),
        0 <= position <= before.len(),
        forall|i: int| 0 <= i < position ==> symbol_le(before[i], symbol),
        forall|i: int| position <= i < before.len() ==> !symbol_le(before[i], symbol),
    ensures
        is_sorted(before.insert(position, symbol)),
{
    let after = before.insert(position, symbol);
    assert forall|i: int, j: int| 0 <= i < j < after.len() implies symbol_le(
        after[i],
        after[j],
    ) by {
        if i < position {
            assert(after[i] == before[i]);
        } else if i > position {
            assert(after[i] == before[i - 1]);
        }
        if j < position {
            assert(after[j] == before[j]);
        } else if j > position {
            assert(after[j] == before[j - 1]);
            if i == position {
                lemma_symbol_le_total(before[j - 1], symbol);
            }
        }
    }
}

/// Two sorted lists that hold the same symbols, each as often as the other,
/// are equal: the order of symbols leaves no choice.
pub proof fn lemma_sorted_symbols_are_unique(a: Seq<SymbolView>, b: Seq<SymbolView>)
    requires
        is_sorted(a),
        is_sorted(b),
        a.to_multiset() == b.to_multiset(),
    ensures
        a == b,
    decreases a.len(),
{
    to_multiset_len(a);
    to_multiset_len(b);
    if a.len() > 0 {
        assert(a.contains(a[0]));
        assert(b.contains(b[0]));
        to_multiset_contains(a, a[0]);
        to_multiset_contains(b, a[0]);
        to_multiset_contains(a, b[0]);
        to_multiset_contains(b, b[0]);
        let k = choose|k: int| 0 <= k < b.len() && b[k] == a[0];
        let m = choose|m: int| 0 <= m < a.len() && a[m] == b[0];
        lemma_symbol_le_total(a[0], a[0]);
        lemma_symbol_le_total(b[0], b[0]);
        assert(symbol_le(b[0], b[k]));
        assert(symbol_le(a[0], a[m]));
        lemma_symbol_le_antisymmetric(a[0], b[0]);
        let a_tail = a.drop_first();
        let b_tail = b.drop_first();
        to_multiset_remove(a, 0);
        to_multiset_remove(b, 0);
        assert(a.remove(0) =~= a_tail);
        assert(b.remove(0) =~= b_tail);
        assert forall|i: int, j: int| 0 <= i < j < a_tail.len() implies symbol_le(
            a_tail[i],
            a_tail[j],
        ) by {
            assert(symbol_le(a[i + 1], a[j + 1]));
        }
        assert forall|i: int, j: int| 0 <= i < j < b_tail.len() implies symbol_le(
            b_tail[i],
            b_tail[j],
        ) by {
            assert(symbol_le(b[i + 1], b[j + 1]));
        }
        lemma_sorted_symbols_are_unique(a_tail, b_tail);
        assert(a =~= seq![a[0]] + a_tail);
        assert(b =~= seq![b[0]] + b_tail);
    } else {
        assert(a =~= b);
    }
}

/// Sorts symbols by address, then by name, then by score.
pub fn sort_symbols(symbols: &Vec<Symbol>) -> (sorted: Vec<Symbol>)
    ensures
        is_sorted(symbol_views(sorted@)),
        symbol_views(sorted@).to_multiset() == symbol_views(symbols@).to_multiset(),
{
    let ghost views = symbol_views(symbols@);
    let mut sorted: Vec<Symbol> = Vec::new();
    let mut index: usize = 0;
    assert(symbol_views(sorted@) =~= views.take(0));
    while index < symbols.len()
        invariant
            index <= symbols@.len(),
            views == symbol_views(symbols@),
            is_sorted(symbol_views(sorted@)),
            symbol_views(sorted@).to_multiset() == views.take(index as int).to_multiset(),
        decreases symbols@.len() - index,
    {
        let symbol: Symbol = symbols[index].duplicate();
        let position: usize = sorted_position(&sorted, &symbol);
        let ghost before = symbol_views(sorted@);
        proof {
            lemma_insert_keeps_sorted(before, position as int, symbol@);
            to_multiset_insert(before, position as int, symbol@);
            assert(views.take(index as int + 1) =~= views.take(index as int).push(
                views[index as int],
            ));
            vstd::seq_lib::to_multiset_build(views.take(index as int), views[index as int]);
        }
        sorted.insert(position, symbol);
        assert(symbol_views(sorted@) =~= before.insert(position as int, symbol@));
        index = index + 1;
    }
    assert(views.take(views.len() as int) =~= views);
    sorted
}

/// One entry of a name index: a library function and its hash.
#[derive(Clone, Debug, PartialEq, Eq)]
pub struct IndexEntry {
    /// The name of the library function.
    pub name: String,
    /// The hash of the library function, in its string form.
    pub hash: String,
}

/// What an `IndexEntry` stands for in contracts.
pub struct EntryView {
    pub name: Seq<char>,
    pub hash: Seq<char>,
}

impl View for IndexEntry {
    type V = EntryView;

    open spec fn view(&self) -> EntryView {
        EntryView { name: self.name@, hash: self.hash@ }
    }
}

/// The views of a list of entries, in order.
pub open spec fn entry_views(entries: Seq<IndexEntry>) -> Seq<EntryView> {
    entries.map_values(|entry: IndexEntry| entry@)
}

/// Holds when one of the entries bears `name`.
pub open spec fn has_name(entries: Seq<EntryView>, name: Seq<char>) -> bool {
    exists|i: int| 0 <= i < entries.len() && (#[trigger] entries[i]).name == name
}

/// Holds when no two entries bear the same name.
pub open spec fn has_unique_names(entries: Seq<EntryView>) -> bool {
    forall|i: int, j: int| 0 <= i < j < entries.len() ==> entries[i].name != entries[j].name
}

/// The entries after `name` was offered with `hash`: a name the entries
/// bear already keeps the hash it has, a new name is added at the end.
pub open spec fn with_entry(entries: Seq<EntryView>, name: Seq<char>, hash: Seq<char>) -> Seq<
    EntryView,
> {
    if has_name(entries, name) {
        entries
    } else {
        entries.push(EntryView { name, hash })
    }
}

/// The entries of the index of a list of signatures: each named signature
/// is offered in turn, so that the first hash seen under a name stays.
pub open spec fn index_of(signatures: Seq<FuzzyFuncView>) -> Seq<EntryView>
    decreases signatures.len(),
{
    if signatures.len() == 0 {
        Seq::empty()
    } else {
        let rest = index_of(signatures.drop_last());
        match signatures.last().name {
            Some(name) => with_entry(rest, name, signatures.last().hash),
            None => rest,
        }
    }
}

/// Offering a name to entries with unique names leaves the names unique.
pub proof fn lemma_with_entry_keeps_names_unique(
    entries: Seq<EntryView>,
    name: Seq<char>,
    hash: Seq<char>,
)
    requires
        has_unique_names(entries),
    ensures
        has_unique_names(with_entry(entries, name, hash)),
{
    if !has_name(entries, name) {
        let after = entries.push(EntryView { name, hash });
        assert forall|i: int, j: int| 0 <= i < j < after.len() implies after[i].name
            != after[j].name by {
            if j == entries.len() {
                assert(entries[i].name != name);
            }
        }
    }
}

/// No two entries of the index of a list of signatures bear the same name.
pub proof fn lemma_index_has_unique_names(signatures: Seq<FuzzyFuncView>)
    ensures
        has_unique_names(index_of(signatures)),
    decreases signatures.len(),
{
    if signatures.len() > 0 {
        lemma_index_has_unique_names(signatures.drop_last());
        match signatures.last().name {
            Some(name) => {
                lemma_with_entry_keeps_names_unique(
                    index_of(signatures.drop_last()),
                    name,
                    signatures.last().hash,
                );
            },
            None => {},
        }
    }
}

/// The hashes of the named library functions, one for each name.
pub struct NameIndex {
    entries: Vec<IndexEntry>,
}

impl View for NameIndex {
    type V = Seq<EntryView>;

    closed spec fn view(&self) -> Seq<EntryView> {
        entry_views(self.entries@)
    }
}

impl NameIndex {
    /// The invariant of the index: no two entries bear the same name.
    pub open spec fn wf(&self) -> bool {
        has_unique_names(self@)
    }

    /// An index without entries.
    pub fn new() -> (index: NameIndex)
        ensures
            index@ == Seq::<EntryView>::empty(),
            index.wf(),
    {
        let index = NameIndex { entries: Vec::new() };
        assert(index@ =~= Seq::<EntryView>::empty());
        index
    }

    /// The number of entries.
    pub fn len(&self) -> (count: usize)
        ensures
            count == self@.len(),
    {
        self.entries.len()
    }

    /// The entries, in the order in which their names were first offered.
    pub fn entries(&self) -> (entries: &Vec<IndexEntry>)
        ensures
            entry_views(entries@) == self@,
    {
        &self.entries
    }

    /// The hash the index holds under `name`.
    pub fn get(&self, name: &str) -> (hash: Option<String>)
        ensures
            match hash {
                Some(found) => exists|i: int|
                    0 <= i < self@.len() && (#[trigger] self@[i]).name == name@ && self@[i].hash
                        == found@,
                None => !has_name(self@, name@),
            },
    {
        let wanted: String = name.to_owned();
        let mut index: usize = 0;
        while index < self.entries.len()
            invariant
                index <= self.entries@.len(),
                wanted@ == name@,
                forall|i: int|
                    0 <= i < index ==> (#[trigger] entry_views(self.entries@)[i]).name != name@,
            decreases self.entries@.len() - index,
        {
            if self.entries[index].name == wanted {
                let found: String = self.entries[index].hash.clone();
                assert(self@[index as int].name == name@ && self@[index as int].hash == found@);
                return Some(found);
            }
            index = index + 1;
        }
        None
    }

    /// Tells whether the index holds an entry under `name`.
    pub fn contains_name(&self, name: &str) -> (found: bool)
        ensures
            found == has_name(self@, name@),
    {
        self.get(name).is_some()
    }

    /// Offers a name with its hash. A name the index holds already keeps the
    /// hash it has; a new name is added. Returns whether the name was new.
    pub fn insert(&mut self, name: &str, hash: &str) -> (added: bool)
        requires
            old(self).wf(),
        ensures
            final(self)@ == with_entry(old(self)@, name@, hash@),
            added == !has_name(old(self)@, name@),
            final(self).wf(),
    {
        proof {
            lemma_with_entry_keeps_names_unique(self@, name@, hash@);
        }
        if self.contains_name(name) {
            false
        } else {
            let ghost before = self@;
            self.entries.push(IndexEntry { name: name.to_owned(), hash: hash.to_owned() });
            assert(entry_views(self.entries@) =~= before.push(
                EntryView { name: name@, hash: hash@ },
            ));
            true
        }
    }

    /// Builds the index of the signatures of library functions: one entry
    /// for each name, with the hash of the first signature that bears it.
    /// Signatures without a name are passed over.
    pub fn from_functions(signatures: &Vec<FuzzyFunc>) -> (index: NameIndex)
        ensures
            index@ == index_of(fuzzy_views(signatures@)),
            index.wf(),
    {
        let ghost views = fuzzy_views(signatures@);
        let mut index: NameIndex = NameIndex::new();
        let mut position: usize = 0;
        assert(views.take(0) =~= Seq::<FuzzyFuncView>::empty());
        while position < signatures.len()
            invariant
                position <= signatures@.len(),
                views == fuzzy_views(signatures@),
                index.wf(),
                index@ == index_of(views.take(position as int)),
            decreases signatures@.len() - position,
        {
            proof {
                assert(views.take(position as int + 1).drop_last() =~= views.take(
                    position as int,
                ));
            }
            if let Some(name) = &signatures[position].name {
                index.insert(name.as_str(), signatures[position].hash.hash.as_str());
            }
            position = position + 1;
        }
        assert(views.take(views.len() as int) =~= views);
        index
    }
}

/// The candidate that the entry for a library function gives for a target
/// function.
pub open spec fn entry_candidate(target: FuzzyFuncView) -> spec_fn(EntryView) -> Option<
    SymbolView,
> {
    |entry: EntryView| candidate(entry.name, target.rva, match_score(entry.hash, target.hash))
}

/// The candidates of one target function, in the order of the entries.
pub open spec fn matches_for(target: FuzzyFuncView, entries: Seq<EntryView>) -> Seq<SymbolView> {
    entries.filter_map(entry_candidate(target))
}

/// The candidates of a list of target functions: those of the first
/// function, then those of the second, and so on.
pub open spec fn all_matches(targets: Seq<FuzzyFuncView>, entries: Seq<EntryView>) -> Seq<SymbolView>
    decreases targets.len(),
{
    if targets.len() == 0 {
        Seq::empty()
    } else {
        all_matches(targets.drop_last(), entries) + matches_for(targets.last(), entries)
    }
}

/// Holds when every score of the list is above the threshold and at most
/// the highest score.
pub open spec fn scores_in_range(symbols: Seq<SymbolView>) -> bool {
    forall|i: int|
        0 <= i < symbols.len() ==> MATCH_THRESHOLD < (#[trigger] symbols[i]).score <= MAX_SCORE
}

/// The candidates of one target function.
pub fn matches_of_target(target: &FuzzyFunc, with: &NameIndex) -> (found: Vec<Symbol>)
    ensures
        symbol_views(found@) == matches_for(target@, with@),
        scores_in_range(symbol_views(found@)),
{
    let entries: &Vec<IndexEntry> = with.entries();
    let ghost views = entry_views(entries@);
    let ghost score = entry_candidate(target@);
    let mut found: Vec<Symbol> = Vec::new();
    let mut index: usize = 0;
    while index < entries.len()
        invariant
            index <= entries@.len(),
            views == entry_views(entries@),
            score == entry_candidate(target@),
            symbol_views(found@) == views.take(index as int).filter_map(score),
            scores_in_range(symbol_views(found@)),
        decreases entries@.len() - index,
    {
        proof {
            views.lemma_filter_map_take_succ(score, index as int);
        }
        let ghost before = symbol_views(found@);
        let entry: &IndexEntry = &entries[index];
        let value: Option<u32> = hash_score(entry.hash.as_str(), target.hash.hash.as_str());
        if let Some(symbol) = Symbol::from_score(entry.name.as_str(), target.rva, value) {
            let ghost added = symbol@;
            found.push(symbol);
            assert(symbol_views(found@) =~= before.push(added));
        }
        index = index + 1;
    }
    assert(views.take(views.len() as int) =~= views);
    found
}

/// Compares the signatures of the target with the index of library
/// signatures. Every library function whose hash scores above the threshold
/// against a target function gives a symbol with the library function's
/// name, the target function's address and the score. The symbols come out
/// sorted by address, then by name, then by score.
pub fn compare(from: &Vec<FuzzyFunc>, with: &NameIndex) -> (symbols: Vec<Symbol>)
    ensures
        is_sorted(symbol_views(symbols@)),
        symbol_views(symbols@).to_multiset() == all_matches(fuzzy_views(from@), with@).to_multiset(),
        scores_in_range(symbol_views(symbols@)),
{
    let ghost targets = fuzzy_views(from@);
    let mut found: Vec<Symbol> = Vec::new();
    let mut index: usize = 0;
    assert(targets.take(0) =~= Seq::<FuzzyFuncView>::empty());
    assert(symbol_views(found@) =~= all_matches(targets.take(0), with@));
    while index < from.len()
        invariant
            index <= from@.len(),
            targets == fuzzy_views(from@),
            symbol_views(found@) == all_matches(targets.take(index as int), with@),
            scores_in_range(symbol_views(found@)),
        decreases from@.len() - index,
    {
        let ghost before = symbol_views(found@);
        let mut more: Vec<Symbol> = matches_of_target(&from[index], with);
        let ghost added = symbol_views(more@);
        found.append(&mut more);
        proof {
            assert(symbol_views(found@) =~= before + added);
            assert(targets.take(index as int + 1).drop_last() =~= targets.take(index as int));
        }
        index = index + 1;
    }
    assert(targets.take(targets.len() as int) =~= targets);
    let symbols: Vec<Symbol> = sort_symbols(&found);
    proof {
        let sorted = symbol_views(symbols@);
        let unsorted = symbol_views(found@);
        assert forall|i: int| 0 <= i < sorted.len() implies MATCH_THRESHOLD < (
        #[trigger] sorted[i]).score <= MAX_SCORE by {
            assert(sorted.contains(sorted[i]));
            to_multiset_contains(sorted, sorted[i]);
            to_multiset_contains(unsorted, sorted[i]);
            let k = choose|k: int| 0 <= k < unsorted.len() && unsorted[k] == sorted[i];
            assert(unsorted[k].score == sorted[i].score);
        }
    }
    symbols
}

} // verus!
