//! PDF object types (PDF 1.4): values, references, arrays and
//! dictionaries whose keys are kept in sorted order.

use vstd::prelude::*;
use crate::types::F32Bits;
use crate::strings::{chars_of, decimal, push_decimal, push_char};
use crate::pdf::decimal_real::{real_text, push_real};

verus! {

/// PDF object types
#[derive(Debug, PartialEq)]
pub enum PdfObject {
    Null,
    Bool(bool),
    Integer(i32),
    Real(F32Bits),
    String(Vec<u8>),
    HexString(Vec<u8>),
    Name(String),
    Array(PdfArray),
    Dictionary(PdfDictionary),
    /// Raw stream data
    Stream(Vec<u8>),
    Reference(PdfReference),
}

/// PDF object reference
#[derive(Debug, Clone, Copy, PartialEq, Eq, Structural, Hash, Default)]
pub struct PdfReference {
    pub object_number: u32,
    pub generation: u16,
}

impl PdfReference {
    pub fn new(object_number: u32, generation: u16) -> (r: Self)
        ensures
            r.object_number == object_number,
            r.generation == generation,
    {
        PdfReference { object_number, generation }
    }
}

/// PDF array
#[derive(Debug, PartialEq)]
pub struct PdfArray {
    pub items: Vec<PdfObject>,
}

impl PdfArray {
    pub fn new() -> (r: Self)
        ensures
            r.items@.len() == 0,
    {
        PdfArray { items: Vec::new() }
    }

    pub fn push(&mut self, obj: PdfObject)
        ensures
            final(self).items@ == old(self).items@.push(obj),
    {
        self.items.push(obj);
    }

    pub fn push_ref(&mut self, reference: PdfReference)
        ensures
            final(self).items@ == old(self).items@.push(PdfObject::Reference(reference)),
    {
        self.items.push(PdfObject::Reference(reference));
    }

    pub fn len(&self) -> (r: usize)
        ensures
            r == self.items@.len(),
    {
        self.items.len()
    }

    pub fn is_empty(&self) -> (r: bool)
        ensures
            r == (self.items@.len() == 0),
    {
        self.items.len() == 0
    }
}

/// `a` orders strictly before `b`, comparing characters in turn (the
/// order of `String` keys in a `BTreeMap`).
pub open spec fn lex_lt(a: Seq<char>, b: Seq<char>) -> bool
    decreases a.len(),
{
    if a.len() == 0 {
        b.len() > 0
    } else if b.len() == 0 {
        false
    } else if a[0] != b[0] {
        (a[0] as int) < (b[0] as int)
    } else {
        lex_lt(a.drop_first(), b.drop_first())
    }
}

/// Keys strictly increasing.
pub open spec fn keys_sorted(es: Seq<(String, PdfObject)>) -> bool {
    forall|i: int, j: int| 0 <= i < j < es.len() ==> lex_lt(#[trigger] es[i].0@, #[trigger] es[j].0@)
}

/// The value stored under `key`, if any.
pub open spec fn entry_value(es: Seq<(String, PdfObject)>, key: Seq<char>) -> Option<PdfObject>
    decreases es.len(),
{
    if es.len() == 0 {
        None
    } else if es[0].0@ == key {
        Some(es[0].1)
    } else {
        entry_value(es.drop_first(), key)
    }
}

/// PDF dictionary: entries kept in increasing key order.
#[derive(Debug, PartialEq)]
pub struct PdfDictionary {
    entries: Vec<(String, PdfObject)>,
}

impl PdfDictionary {
    /// The entries, in increasing key order.
    pub closed spec fn entries(&self) -> Seq<(String, PdfObject)> {
        self.entries@
    }

    #[verifier::type_invariant]
    spec fn sorted(&self) -> bool {
        keys_sorted(self.entries@)
    }

    /// The value under `key`, if any.
    pub open spec fn value_of(&self, key: Seq<char>) -> Option<PdfObject> {
        entry_value(self.entries(), key)
    }

    pub fn new() -> (r: Self)
        ensures
            r.entries().len() == 0,
            forall|k: Seq<char>| r.value_of(k) is None,
    {
        PdfDictionary { entries: Vec::new() }
    }
}

} // verus!

verus! {

pub proof fn lemma_lex_irrefl(a: Seq<char>)
    ensures
        !lex_lt(a, a),
    decreases a.len(),
{
    if a.len() > 0 {
        lemma_lex_irrefl(a.drop_first());
    }
}

pub proof fn lemma_lex_trans(a: Seq<char>, b: Seq<char>, c: Seq<char>)
    requires
        lex_lt(a, b),
        lex_lt(b, c),
    ensures
        lex_lt(a, c),
    decreases a.len(),
{
    if a.len() > 0 && b.len() > 0 && c.len() > 0 {
        if a[0] == b[0] && b[0] == c[0] {
            lemma_lex_trans(a.drop_first(), b.drop_first(), c.drop_first());
        }
    }
}

pub proof fn lemma_lex_total(a: Seq<char>, b: Seq<char>)
    ensures
        a != b ==> lex_lt(a, b) || lex_lt(b, a),
        lex_lt(a, b) ==> !lex_lt(b, a) && a != b,
    decreases a.len(),
{
    lemma_lex_irrefl(a);
    if a.len() > 0 && b.len() > 0 {
        lemma_lex_total(a.drop_first(), b.drop_first());
        if a[0] == b[0] && a != b {
            if a.drop_first() == b.drop_first() {
                assert(a =~= seq![a[0]] + a.drop_first());
                assert(b =~= seq![b[0]] + b.drop_first());
            }
        }
        if a[0] != b[0] {
            assert((a[0] as int) != (b[0] as int));
        }
    } else if a.len() == 0 && b.len() == 0 {
        assert(a =~= b);
    }
}

/// In entries with distinct keys, the value under the key of entry `i` is
/// that entry's value.
pub proof fn lemma_entry_at(es: Seq<(String, PdfObject)>, i: int)
    requires
        keys_sorted(es),
        0 <= i < es.len(),
    ensures
        entry_value(es, es[i].0@) == Some(es[i].1),
    decreases i,
{
    if i > 0 {
        assert(lex_lt(es[0].0@, es[i].0@));
        lemma_lex_irrefl(es[i].0@);
        assert(es[0].0@ != es[i].0@);
        assert forall|a: int, b: int| 0 <= a < b < es.drop_first().len() implies lex_lt(#[trigger] es.drop_first()[a].0@, #[trigger] es.drop_first()[b].0@) by {
            assert(es.drop_first()[a] == es[a + 1]);
            assert(es.drop_first()[b] == es[b + 1]);
        }
        lemma_entry_at(es.drop_first(), i - 1);
    }
}

/// A key held by no entry has no value.
pub proof fn lemma_entry_absent(es: Seq<(String, PdfObject)>, key: Seq<char>)
    requires
        forall|i: int| 0 <= i < es.len() ==> (#[trigger] es[i]).0@ != key,
    ensures
        entry_value(es, key) is None,
    decreases es.len(),
{
    if es.len() > 0 {
        assert(es[0].0@ != key);
        assert forall|i: int| 0 <= i < es.drop_first().len() implies (#[trigger] es.drop_first()[i]).0@ != key by {
            assert(es.drop_first()[i] == es[i + 1]);
        }
        lemma_entry_absent(es.drop_first(), key);
    }
}

/// The value under a key is found at the entry holding it, if any.
pub proof fn lemma_entry_value_cases(es: Seq<(String, PdfObject)>, key: Seq<char>)
    requires
        keys_sorted(es),
    ensures
        (exists|i: int| 0 <= i < es.len() && es[i].0@ == key) || entry_value(es, key) is None,
        forall|i: int| 0 <= i < es.len() && es[i].0@ == key ==> entry_value(es, key) == Some(es[i].1),
{
    if forall|i: int| 0 <= i < es.len() ==> (#[trigger] es[i]).0@ != key {
        lemma_entry_absent(es, key);
    }
    assert forall|i: int| 0 <= i < es.len() && es[i].0@ == key implies entry_value(es, key) == Some(es[i].1) by {
        lemma_entry_at(es, i);
    }
}

/// Whether `a` orders before `b`.
fn chars_lt(a: &Vec<char>, b: &Vec<char>) -> (r: bool)
    ensures
        r == lex_lt(a@, b@),
{
    let mut i: usize = 0;
    assert(a@.skip(0) =~= a@);
    assert(b@.skip(0) =~= b@);
    while i < a.len() && i < b.len()
        invariant
            i <= a@.len(),
            i <= b@.len(),
            a@.take(i as int) == b@.take(i as int),
            lex_lt(a@, b@) == lex_lt(a@.skip(i as int), b@.skip(i as int)),
        decreases a@.len() - i,
    {
        assert(a@.skip(i as int)[0] == a@[i as int]);
        assert(b@.skip(i as int)[0] == b@[i as int]);
        if a[i] != b[i] {
            return a[i] < b[i];
        }
        assert(a@.skip(i as int).drop_first() =~= a@.skip(i + 1));
        assert(b@.skip(i as int).drop_first() =~= b@.skip(i + 1));
        assert(a@.take(i + 1) =~= a@.take(i as int).push(a@[i as int]));
        assert(b@.take(i + 1) =~= b@.take(i as int).push(b@[i as int]));
        i = i + 1;
    }
    i == a.len() && i < b.len()
}

/// Entries as plain keys and values.
pub open spec fn entries_view(es: Seq<(String, PdfObject)>) -> Seq<(Seq<char>, PdfObject)> {
    Seq::new(es.len(), |i: int| (es[i].0@, es[i].1))
}

/// Sorted entries with `(k, v)` put in: the value replaced where `k` is
/// held, else the entry placed before the first larger key.
pub open spec fn insert_view(ev: Seq<(Seq<char>, PdfObject)>, k: Seq<char>, v: PdfObject) -> Seq<(Seq<char>, PdfObject)>
    decreases ev.len(),
{
    if ev.len() == 0 {
        seq![(k, v)]
    } else if ev[0].0 == k {
        ev.update(0, (k, v))
    } else if lex_lt(k, ev[0].0) {
        seq![(k, v)] + ev
    } else {
        seq![ev[0]] + insert_view(ev.drop_first(), k, v)
    }
}

pub proof fn lemma_insert_view(ev: Seq<(Seq<char>, PdfObject)>, k: Seq<char>, v: PdfObject, i: int)
    requires
        0 <= i <= ev.len(),
        forall|j: int| 0 <= j < i ==> lex_lt(#[trigger] ev[j].0, k),
        i == ev.len() || !lex_lt(ev[i].0, k),
    ensures
        insert_view(ev, k, v) == if i < ev.len() && ev[i].0 == k { ev.update(i, (k, v)) } else { ev.insert(i, (k, v)) },
    decreases i,
{
    if i == 0 {
        if ev.len() > 0 {
            lemma_lex_total(ev[0].0, k);
            if ev[0].0 != k {
                assert(insert_view(ev, k, v) =~= ev.insert(0, (k, v)));
            }
        } else {
            assert(insert_view(ev, k, v) =~= ev.insert(0, (k, v)));
        }
    } else {
        assert(lex_lt(ev[0].0, k));
        lemma_lex_total(ev[0].0, k);
        let rest = ev.drop_first();
        assert forall|j: int| 0 <= j < i - 1 implies lex_lt(#[trigger] rest[j].0, k) by {
            assert(rest[j] == ev[j + 1]);
        }
        if i < ev.len() {
            assert(rest[i - 1] == ev[i]);
        }
        lemma_insert_view(rest, k, v, i - 1);
        if i < ev.len() && ev[i].0 == k {
            assert(insert_view(ev, k, v) =~= ev.update(i, (k, v)));
        } else {
            assert(insert_view(ev, k, v) =~= ev.insert(i, (k, v)));
        }
    }
}

impl PdfDictionary {
    /// Inserts or replaces the value under `key`; the keys stay in
    /// increasing order.
    pub fn insert(&mut self, key: &str, value: PdfObject)
        ensures
            final(self).value_of(key@) == Some(value),
            forall|k: Seq<char>| k != key@ ==> final(self).value_of(k) == old(self).value_of(k),
            final(self).entries().len() == old(self).entries().len()
                + if old(self).value_of(key@) is Some { 0int } else { 1int },
            entries_view(final(self).entries()) == insert_view(entries_view(old(self).entries()), key@, value),
    {
        proof { use_type_invariant(&*self); }
        let mut entries: Vec<(String, PdfObject)> = Vec::new();
        std::mem::swap(&mut entries, &mut self.entries);
        let ghost es = entries@;
        let k = chars_of(key);
        let mut i: usize = 0;
        let mut done = false;
        while !done && i < entries.len()
            invariant
                i <= es.len(),
                es == entries@,
                keys_sorted(es),
                k@ == key@,
                forall|j: int| 0 <= j < i ==> lex_lt(#[trigger] es[j].0@, key@),
                done ==> i < es.len() && !lex_lt(es[i as int].0@, key@),
            decreases es.len() - i + if done { 0int } else { 1int },
        {
            let ek = chars_of(entries[i].0.as_str());
            if chars_lt(&ek, &k) {
                i = i + 1;
            } else {
                done = true;
            }
        }
        proof {
            lemma_entry_value_cases(es, key@);
        }
        if i < entries.len() {
            let ek = chars_of(entries[i].0.as_str());
            if crate::strings::seq_eq(&ek, &k) {
                let ghost old_v = es[i as int];
                let new_key = entries[i].0.clone();
                entries.set(i, (new_key, value));
                proof {
                    let es2 = entries@;
                    assert(es2 =~= es.update(i as int, (old_v.0, value)));
                    assert forall|a: int, b: int| 0 <= a < b < es2.len() implies lex_lt(#[trigger] es2[a].0@, #[trigger] es2[b].0@) by {
                        assert(es[a].0@ == es2[a].0@ && es[b].0@ == es2[b].0@);
                    }
                    lemma_entry_at(es2, i as int);
                    assert forall|kk: Seq<char>| kk != key@ implies entry_value(es2, kk) == entry_value(es, kk) by {
                        lemma_entry_value_cases(es, kk);
                        lemma_entry_value_cases(es2, kk);
                        if exists|j: int| 0 <= j < es.len() && es[j].0@ == kk {
                            let j = choose|j: int| 0 <= j < es.len() && es[j].0@ == kk;
                            assert(es2[j] == es[j]);
                        } else {
                            assert forall|j: int| 0 <= j < es2.len() implies (#[trigger] es2[j]).0@ != kk by {
                                if j != i {
                                    assert(es2[j] == es[j]);
                                }
                            }
                            lemma_entry_absent(es2, kk);
                        }
                    }
                }
                proof {
                    lemma_insert_view(entries_view(es), key@, value, i as int);
                    assert(entries_view(entries@) =~= entries_view(es).update(i as int, (key@, value)));
                }
                self.entries = entries;
                return;
            }
        }
        let new_key = String::from_str(key);
        entries.insert(i, (new_key, value));
        proof {
            let es2 = entries@;
            assert(es2 =~= es.insert(i as int, (new_key, value)));
            assert(es2[i as int].0@ == key@);
            if i < es.len() {
                lemma_lex_total(es[i as int].0@, key@);
                lemma_lex_total(key@, es[i as int].0@);
                assert(es[i as int].0@ != key@);
                assert(lex_lt(key@, es[i as int].0@));
            }
            assert forall|a: int| 0 <= a < es.len() implies (#[trigger] es[a]).0@ != key@ by {
                if a < i {
                    lemma_lex_total(es[a].0@, key@);
                } else {
                    lemma_lex_total(key@, es[i as int].0@);
                    if a > i {
                        lemma_lex_trans(key@, es[i as int].0@, es[a].0@);
                        lemma_lex_total(key@, es[a].0@);
                    }
                }
            }
            assert forall|a: int, b: int| 0 <= a < b < es2.len() implies lex_lt(#[trigger] es2[a].0@, #[trigger] es2[b].0@) by {
                if b < i {
                } else if b == i {
                } else if a < i {
                    assert(es2[b] == es[b - 1]);
                    if b - 1 >= i {
                        lemma_lex_total(key@, es[i as int].0@);
                        if b - 1 > i {
                            lemma_lex_trans(key@, es[i as int].0@, es[b - 1].0@);
                        }
                        lemma_lex_trans(es[a].0@, key@, es[b - 1].0@);
                    }
                } else if a == i {
                    assert(es2[b] == es[b - 1]);
                    lemma_lex_total(key@, es[i as int].0@);
                    if b - 1 > i {
                        lemma_lex_trans(key@, es[i as int].0@, es[b - 1].0@);
                    }
                } else {
                    assert(es2[a] == es[a - 1]);
                    assert(es2[b] == es[b - 1]);
                }
            }
            lemma_entry_absent(es, key@);
            lemma_entry_at(es2, i as int);
            assert forall|kk: Seq<char>| kk != key@ implies entry_value(es2, kk) == entry_value(es, kk) by {
                lemma_entry_value_cases(es, kk);
                lemma_entry_value_cases(es2, kk);
                if exists|j: int| 0 <= j < es.len() && es[j].0@ == kk {
                    let j = choose|j: int| 0 <= j < es.len() && es[j].0@ == kk;
                    if j < i {
                        assert(es2[j] == es[j]);
                    } else {
                        assert(es2[j + 1] == es[j]);
                    }
                } else {
                    assert forall|j: int| 0 <= j < es2.len() implies (#[trigger] es2[j]).0@ != kk by {
                        if j < i {
                            assert(es2[j] == es[j]);
                        } else if j > i {
                            assert(es2[j] == es[j - 1]);
                        }
                    }
                    lemma_entry_absent(es2, kk);
                }
            }
        }
        proof {
            lemma_insert_view(entries_view(es), key@, value, i as int);
            assert(entries_view(entries@) =~= entries_view(es).insert(i as int, (key@, value)));
        }
        self.entries = entries;
    }
}


impl PdfDictionary {
    /// Position of the entry holding `key`, if any.
    fn find(&self, key: &str) -> (r: Option<usize>)
        ensures
            match r {
                Some(i) => i < self.entries().len() && self.entries()[i as int].0@ == key@
                    && self.value_of(key@) == Some(self.entries()[i as int].1),
                None => self.value_of(key@) is None,
            },
    {
        proof { use_type_invariant(self); }
        let mut i: usize = 0;
        while i < self.entries.len()
            invariant
                i <= self.entries@.len(),
                keys_sorted(self.entries@),
                forall|j: int| 0 <= j < i ==> (#[trigger] self.entries@[j]).0@ != key@,
            decreases self.entries@.len() - i,
        {
            if crate::strings::str_eq(self.entries[i].0.as_str(), key) {
                proof { lemma_entry_at(self.entries@, i as int); }
                return Some(i);
            }
            i = i + 1;
        }
        proof { lemma_entry_absent(self.entries@, key@); }
        None
    }

    /// The value under `key`, if any.
    pub fn get(&self, key: &str) -> (r: Option<&PdfObject>)
        ensures
            match r {
                Some(v) => self.value_of(key@) == Some(*v),
                None => self.value_of(key@) is None,
            },
    {
        match self.find(key) {
            Some(i) => Some(&self.entries[i].1),
            None => None,
        }
    }

    /// Whether some entry holds `key`.
    pub fn contains(&self, key: &str) -> (r: bool)
        ensures
            r == (self.value_of(key@) is Some),
    {
        self.find(key).is_some()
    }

    /// The number of entries.
    pub fn len(&self) -> (r: usize)
        ensures
            r == self.entries().len(),
    {
        self.entries.len()
    }

    pub fn is_empty(&self) -> (r: bool)
        ensures
            r == (self.entries().len() == 0),
    {
        self.entries.len() == 0
    }

    /// Inserts or replaces a reference under `key`.
    pub fn insert_ref(&mut self, key: &str, reference: PdfReference)
        ensures
            final(self).value_of(key@) == Some(PdfObject::Reference(reference)),
            forall|k: Seq<char>| k != key@ ==> final(self).value_of(k) == old(self).value_of(k),
            entries_view(final(self).entries()) == insert_view(entries_view(old(self).entries()), key@, PdfObject::Reference(reference)),
    {
        self.insert(key, PdfObject::Reference(reference));
    }
}


impl PdfObject {
    /// The integer held, if this is an integer.
    pub fn as_integer(&self) -> (r: Option<i32>)
        ensures
            r == (match *self { PdfObject::Integer(i) => Some(i), _ => None }),
    {
        match self {
            PdfObject::Integer(i) => Some(*i),
            _ => None,
        }
    }

    /// The name held, if this is a name.
    pub fn as_name(&self) -> (r: Option<&str>)
        ensures
            match *self {
                PdfObject::Name(n) => r is Some && r.unwrap()@ == n@,
                _ => r is None,
            },
    {
        match self {
            PdfObject::Name(n) => Some(n.as_str()),
            _ => None,
        }
    }
}

} // verus!

verus! {

/// The uppercase hexadecimal digit of `d` (below 16).
pub open spec fn hex_char(d: nat) -> char {
    if d < 10 { (48 + d) as char } else { (55 + d) as char }
}

/// A byte as two uppercase hexadecimal digits.
pub open spec fn hex2(b: nat) -> Seq<char> {
    seq![hex_char(b / 16), hex_char(b % 16)]
}

/// A byte of a literal string as written: `\`, `(` and `)` behind a
/// backslash, newline, return and tab as `\n`, `\r` and `\t`, and any
/// other byte as the character of that code.
pub open spec fn escaped_byte(b: u8) -> Seq<char> {
    if b == 0x5C || b == 0x28 || b == 0x29 {
        seq!['\\', b as char]
    } else if b == 0x0A {
        seq!['\\', 'n']
    } else if b == 0x0D {
        seq!['\\', 'r']
    } else if b == 0x09 {
        seq!['\\', 't']
    } else {
        seq![b as char]
    }
}

/// The bytes of a literal string as written.
pub open spec fn escaped_bytes(s: Seq<u8>) -> Seq<char>
    decreases s.len(),
{
    if s.len() == 0 { Seq::empty() } else { escaped_bytes(s.drop_last()) + escaped_byte(s.last()) }
}

/// The bytes of a hexadecimal string as written.
pub open spec fn hex_bytes(s: Seq<u8>) -> Seq<char>
    decreases s.len(),
{
    if s.len() == 0 { Seq::empty() } else { hex_bytes(s.drop_last()) + hex2(s.last() as nat) }
}

/// Whether `c` is an ASCII letter or digit.
pub open spec fn is_ascii_alnum(c: char) -> bool {
    ('0' <= c && c <= '9') || ('A' <= c && c <= 'Z') || ('a' <= c && c <= 'z')
}

/// A character of a name as written: letters, digits, `_`, `.` and `-` as
/// they are, any other as `#` and the two hexadecimal digits of its low
/// byte.
pub open spec fn name_char_text(c: char) -> Seq<char> {
    if is_ascii_alnum(c) || c == '_' || c == '.' || c == '-' {
        seq![c]
    } else {
        seq!['#'] + hex2(((c as u32) % 256) as nat)
    }
}

/// The characters of a name as written.
pub open spec fn name_text(n: Seq<char>) -> Seq<char>
    decreases n.len(),
{
    if n.len() == 0 { Seq::empty() } else { name_text(n.drop_last()) + name_char_text(n.last()) }
}

/// An integer as written.
pub open spec fn integer_text(i: i32) -> Seq<char> {
    if i < 0 { "-"@ + decimal((-i) as nat) } else { decimal(i as nat) }
}

/// A reference as written: `n g R`.
pub open spec fn reference_text(r: PdfReference) -> Seq<char> {
    decimal(r.object_number as nat) + " "@ + decimal(r.generation as nat) + " R"@
}

/// The text of an object in a PDF file.
pub open spec fn object_text(o: PdfObject) -> Seq<char>
    decreases o, 1nat,
{
    match o {
        PdfObject::Null => "null"@,
        PdfObject::Bool(b) => if b { "true"@ } else { "false"@ },
        PdfObject::Integer(i) => integer_text(i),
        PdfObject::Real(f) => real_text(f.0),
        PdfObject::String(s) => "("@ + escaped_bytes(s@) + ")"@,
        PdfObject::HexString(s) => "<"@ + hex_bytes(s@) + ">"@,
        PdfObject::Name(n) => "/"@ + name_text(n@),
        PdfObject::Array(a) => "["@ + items_text(a.items@) + "]"@,
        PdfObject::Dictionary(d) => "<<"@ + entries_text(d.entries()) + ">>"@,
        PdfObject::Stream(_) => Seq::empty(),
        PdfObject::Reference(r) => reference_text(r),
    }
}

/// The texts of array items, separated by single spaces.
pub open spec fn items_text(xs: Seq<PdfObject>) -> Seq<char>
    decreases xs, 0nat,
{
    if xs.len() == 0 {
        Seq::empty()
    } else {
        items_text(xs.subrange(0, xs.len() - 1)) + (if xs.len() > 1 { " "@ } else { Seq::empty() })
            + object_text(xs[xs.len() - 1])
    }
}

/// The texts of dictionary entries: for each, `/`, the key, a space and
/// the value.
pub open spec fn entries_text(es: Seq<(String, PdfObject)>) -> Seq<char>
    decreases es, 0nat,
{
    if es.len() == 0 {
        Seq::empty()
    } else {
        entries_text(es.subrange(0, es.len() - 1)) + "/"@ + es[es.len() - 1].0@ + " "@
            + object_text(es[es.len() - 1].1)
    }
}

/// Whether an object can be written in place: no stream in it (streams
/// are written apart, with their length).
pub open spec fn writable(o: PdfObject) -> bool
    decreases o, 1nat,
{
    match o {
        PdfObject::Stream(_) => false,
        PdfObject::Array(a) => items_writable(a.items@),
        PdfObject::Dictionary(d) => entries_writable(d.entries()),
        _ => true,
    }
}

/// Whether all items can be written in place.
pub open spec fn items_writable(xs: Seq<PdfObject>) -> bool
    decreases xs, 0nat,
{
    xs.len() == 0 || (items_writable(xs.subrange(0, xs.len() - 1)) && writable(xs[xs.len() - 1]))
}

/// Whether all entry values can be written in place.
pub open spec fn entries_writable(es: Seq<(String, PdfObject)>) -> bool
    decreases es, 0nat,
{
    es.len() == 0 || (entries_writable(es.subrange(0, es.len() - 1)) && writable(es[es.len() - 1].1))
}

/// The uppercase hexadecimal digit of `d`.
fn hex_digit(d: u32) -> (c: char)
    requires
        d < 16,
    ensures
        c == hex_char(d as nat),
{
    if d < 10 { ((48 + d) as u8) as char } else { ((55 + d) as u8) as char }
}

/// Appends the two hexadecimal digits of the byte `b`.
fn push_hex2(out: &mut String, b: u32)
    requires
        b < 256,
    ensures
        final(out)@ == old(out)@ + hex2(b as nat),
{
    push_char(out, hex_digit(b / 16));
    push_char(out, hex_digit(b % 16));
    assert(final(out)@ =~= old(out)@ + hex2(b as nat));
}

impl PdfObject {
    /// Write object to PDF output
    pub fn write(&self, out: &mut String) -> (r: crate::types::Result<()>)
        requires
            writable(*self),
        ensures
            r is Ok,
            final(out)@ == old(out)@ + object_text(*self),
        decreases *self,
    {
        let ghost start = out@;
        match self {
            PdfObject::Null => out.append("null"),
            PdfObject::Bool(b) => out.append(if *b { "true" } else { "false" }),
            PdfObject::Integer(i) => {
                if *i < 0 {
                    out.append("-");
                    push_decimal(out, (-(*i as i64)) as u128);
                } else {
                    push_decimal(out, *i as u128);
                }
            },
            PdfObject::Real(f) => push_real(out, f.0),
            PdfObject::String(s) => {
                out.append("(");
                let mut i: usize = 0;
                while i < s.len()
                    invariant
                        i <= s@.len(),
                        out@ == start + "("@ + escaped_bytes(s@.subrange(0, i as int)),
                    decreases s@.len() - i,
                {
                    let b = s[i];
                    if b == 0x5C || b == 0x28 || b == 0x29 {
                        push_char(out, '\\');
                        push_char(out, b as char);
                    } else if b == 0x0A {
                        out.append("\\n");
                    } else if b == 0x0D {
                        out.append("\\r");
                    } else if b == 0x09 {
                        out.append("\\t");
                    } else {
                        push_char(out, b as char);
                    }
                    proof {
                        reveal_strlit("\\n");
                        reveal_strlit("\\r");
                        reveal_strlit("\\t");
                        assert(s@.subrange(0, i + 1).drop_last() =~= s@.subrange(0, i as int));
                        assert(out@ =~= start + "("@ + escaped_bytes(s@.subrange(0, i + 1)));
                    }
                    i = i + 1;
                }
                assert(s@.subrange(0, s@.len() as int) =~= s@);
                out.append(")");
            },
            PdfObject::HexString(s) => {
                out.append("<");
                let mut i: usize = 0;
                while i < s.len()
                    invariant
                        i <= s@.len(),
                        out@ == start + "<"@ + hex_bytes(s@.subrange(0, i as int)),
                    decreases s@.len() - i,
                {
                    push_hex2(out, s[i] as u32);
                    proof {
                        assert(s@.subrange(0, i + 1).drop_last() =~= s@.subrange(0, i as int));
                        assert(out@ =~= start + "<"@ + hex_bytes(s@.subrange(0, i + 1)));
                    }
                    i = i + 1;
                }
                assert(s@.subrange(0, s@.len() as int) =~= s@);
                out.append(">");
            },
            PdfObject::Name(n) => {
                out.append("/");
                let cs = chars_of(n.as_str());
                let mut i: usize = 0;
                while i < cs.len()
                    invariant
                        i <= cs@.len(),
                        cs@ == n@,
                        out@ == start + "/"@ + name_text(cs@.subrange(0, i as int)),
                    decreases cs@.len() - i,
                {
                    let c = cs[i];
                    if ('0' <= c && c <= '9') || ('A' <= c && c <= 'Z') || ('a' <= c && c <= 'z')
                        || c == '_' || c == '.' || c == '-' {
                        push_char(out, c);
                    } else {
                        push_char(out, '#');
                        push_hex2(out, (c as u32) % 256);
                    }
                    proof {
                        assert(cs@.subrange(0, i + 1).drop_last() =~= cs@.subrange(0, i as int));
                        assert(out@ =~= start + "/"@ + name_text(cs@.subrange(0, i + 1)));
                    }
                    i = i + 1;
                }
                assert(cs@.subrange(0, cs@.len() as int) =~= cs@);
            },
            PdfObject::Array(a) => {
                let _ = a.write(out);
            },
            PdfObject::Dictionary(d) => {
                let _ = d.write(out);
            },
            PdfObject::Stream(_) => {},
            PdfObject::Reference(r) => {
                push_decimal(out, r.object_number as u128);
                out.append(" ");
                push_decimal(out, r.generation as u128);
                out.append(" R");
            },
        }
        assert(out@ =~= start + object_text(*self));
        Ok(())
    }
}

impl PdfArray {
    /// Write the array: its items between brackets, separated by spaces.
    pub fn write(&self, out: &mut String) -> (r: crate::types::Result<()>)
        requires
            items_writable(self.items@),
        ensures
            r is Ok,
            final(out)@ == old(out)@ + "["@ + items_text(self.items@) + "]"@,
        decreases *self,
    {
        let ghost start = out@;
        out.append("[");
        let mut i: usize = 0;
        assert(self.items@.subrange(0, 0) =~= Seq::<PdfObject>::empty());
        while i < self.items.len()
            invariant
                i <= self.items@.len(),
                items_writable(self.items@),
                out@ == start + "["@ + items_text(self.items@.subrange(0, i as int)),
            decreases self.items@.len() - i,
        {
            let ghost xs = self.items@.subrange(0, i + 1);
            proof {
                assert(xs.subrange(0, i as int) =~= self.items@.subrange(0, i as int));
                assert(xs[i as int] == self.items@[i as int]);
                lemma_items_writable(self.items@, i as int);
            }
            if i > 0 {
                out.append(" ");
            }
            proof {
                assert(decreases_to!(*self => self.items));
                assert(decreases_to!(self.items => self.items@));
                assert(decreases_to!(self.items@ => self.items@[i as int]));
            }
            let _ = self.items[i].write(out);
            assert(out@ =~= start + "["@ + items_text(xs));
            i = i + 1;
        }
        assert(self.items@.subrange(0, self.items@.len() as int) =~= self.items@);
        out.append("]");
        Ok(())
    }
}

/// Items that can all be written have each item writable.
proof fn lemma_items_writable(xs: Seq<PdfObject>, i: int)
    requires
        items_writable(xs),
        0 <= i < xs.len(),
    ensures
        writable(xs[i]),
    decreases xs.len(),
{
    if i < xs.len() - 1 {
        let pre = xs.subrange(0, xs.len() - 1);
        lemma_items_writable(pre, i);
        assert(pre[i] == xs[i]);
    }
}

/// Entries that can all be written have each value writable.
proof fn lemma_entries_writable(es: Seq<(String, PdfObject)>, i: int)
    requires
        entries_writable(es),
        0 <= i < es.len(),
    ensures
        writable(es[i].1),
    decreases es.len(),
{
    if i < es.len() - 1 {
        let pre = es.subrange(0, es.len() - 1);
        lemma_entries_writable(pre, i);
        assert(pre[i] == es[i]);
    }
}

impl PdfDictionary {
    /// Whether every value can be written in place.
    pub open spec fn writable_values(&self) -> bool {
        entries_writable(self.entries())
    }

    /// Write the dictionary: for each entry in key order, `/`, the key, a
    /// space and the value, between `<<` and `>>`.
    pub fn write(&self, out: &mut String) -> (r: crate::types::Result<()>)
        requires
            self.writable_values(),
        ensures
            r is Ok,
            final(out)@ == old(out)@ + "<<"@ + entries_text(self.entries()) + ">>"@,
        decreases *self,
    {
        let ghost start = out@;
        out.append("<<");
        let mut i: usize = 0;
        assert(self.entries@.subrange(0, 0) =~= Seq::<(String, PdfObject)>::empty());
        while i < self.entries.len()
            invariant
                i <= self.entries@.len(),
                entries_writable(self.entries@),
                out@ == start + "<<"@ + entries_text(self.entries@.subrange(0, i as int)),
            decreases self.entries@.len() - i,
        {
            let ghost es = self.entries@.subrange(0, i + 1);
            proof {
                assert(es.subrange(0, i as int) =~= self.entries@.subrange(0, i as int));
                assert(es[i as int] == self.entries@[i as int]);
                lemma_entries_writable(self.entries@, i as int);
            }
            out.append("/");
            out.append(self.entries[i].0.as_str());
            out.append(" ");
            proof {
                assert(decreases_to!(*self => self.entries));
                assert(decreases_to!(self.entries => self.entries@));
                assert(decreases_to!(self.entries@ => self.entries@[i as int]));
                assert(decreases_to!(self.entries@[i as int] => self.entries@[i as int].1));
            }
            let _ = self.entries[i].1.write(out);
            assert(out@ =~= start + "<<"@ + entries_text(es));
            i = i + 1;
        }
        assert(self.entries@.subrange(0, self.entries@.len() as int) =~= self.entries@);
        out.append(">>");
        Ok(())
    }
}


/// The texts of entries given as plain keys and values.
pub open spec fn view_entries_text(ev: Seq<(Seq<char>, PdfObject)>) -> Seq<char>
    decreases ev.len(),
{
    if ev.len() == 0 {
        Seq::empty()
    } else {
        view_entries_text(ev.subrange(0, ev.len() - 1)) + "/"@ + ev[ev.len() - 1].0 + " "@
            + object_text(ev[ev.len() - 1].1)
    }
}

/// Whether all values of plain entries can be written in place.
pub open spec fn view_entries_writable(ev: Seq<(Seq<char>, PdfObject)>) -> bool {
    forall|i: int| 0 <= i < ev.len() ==> writable(#[trigger] ev[i].1)
}

pub proof fn lemma_entries_view_text(es: Seq<(String, PdfObject)>)
    ensures
        entries_text(es) == view_entries_text(entries_view(es)),
        entries_writable(es) == view_entries_writable(entries_view(es)),
    decreases es.len(),
{
    if es.len() > 0 {
        let pre = es.subrange(0, es.len() - 1);
        lemma_entries_view_text(pre);
        assert(entries_view(es).subrange(0, es.len() - 1) =~= entries_view(pre));
        if entries_writable(es) {
            assert forall|i: int| 0 <= i < es.len() implies writable(#[trigger] entries_view(es)[i].1) by {
                lemma_entries_writable(es, i);
            }
        }
        if view_entries_writable(entries_view(es)) {
            assert(writable(entries_view(es)[es.len() - 1].1));
            assert forall|i: int| 0 <= i < entries_view(pre).len() implies writable(#[trigger] entries_view(pre)[i].1) by {
                assert(entries_view(pre)[i] == entries_view(es)[i]);
            }
        }
    }
}

/// A dictionary's text.
pub open spec fn dictionary_text(d: PdfDictionary) -> Seq<char> {
    "<<"@ + view_entries_text(entries_view(d.entries())) + ">>"@
}

} // verus!
