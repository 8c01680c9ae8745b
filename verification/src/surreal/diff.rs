//! Parsing of SurrealQL schema text into DEFINE objects, and the comparison
//! of a desired schema with the definitions a live database reports.
use vstd::prelude::*;
use crate::text::{
    append_chars, ascii_upper_seq, chars_of, copy_range, eq_chars, eq_ignore_case,
    eq_ignore_case_chars, is_whitespace, is_ws, join, join_chars, lemma_skip_ws_bounds,
    lemma_trim_idempotent, lemma_trim_unchanged, lemma_word_end_at, lemma_word_end_bounds,
    lower_chars, skip_ws, ascii_upper,
    lower_of, remove_char, seqs_of, split_whitespace, split_ws, starts_with_chars, string_of,
    to_ascii_upper_chars, trim, trim_chars, trim_end_char, trim_end_char_chars, trim_start,
    trim_start_chars, upper_chars, upper_of, without_char, word_end,
};

verus! {

broadcast use vstd::string::group_string_axioms;

// ---------------------------------------------------------------------------
// Schema objects
// ---------------------------------------------------------------------------

#[derive(Debug, Clone, PartialEq, Eq, Hash)]
pub enum SchemaObjectType {
    Table,
    Field { table: String },
    Index { table: String },
    Event { table: String },
    Access,
}

pub enum SchemaObjectTypeView {
    Table,
    Field(Seq<char>),
    Index(Seq<char>),
    Event(Seq<char>),
    Access,
}

impl View for SchemaObjectType {
    type V = SchemaObjectTypeView;

    open spec fn view(&self) -> SchemaObjectTypeView {
        match self {
            SchemaObjectType::Table => SchemaObjectTypeView::Table,
            SchemaObjectType::Field { table } => SchemaObjectTypeView::Field(table@),
            SchemaObjectType::Index { table } => SchemaObjectTypeView::Index(table@),
            SchemaObjectType::Event { table } => SchemaObjectTypeView::Event(table@),
            SchemaObjectType::Access => SchemaObjectTypeView::Access,
        }
    }
}

impl SchemaObjectTypeView {
    /// The order in which new objects are created: tables first, then the
    /// objects that live on tables, then access methods.
    pub open spec fn priority(self) -> u8 {
        match self {
            SchemaObjectTypeView::Table => 0,
            SchemaObjectTypeView::Field(_) => 1,
            SchemaObjectTypeView::Index(_) => 2,
            SchemaObjectTypeView::Event(_) => 3,
            SchemaObjectTypeView::Access => 4,
        }
    }
}

impl SchemaObjectType {
    pub fn priority(&self) -> (p: u8)
        ensures
            p == self@.priority(),
    {
        match self {
            SchemaObjectType::Table => 0,
            SchemaObjectType::Field { .. } => 1,
            SchemaObjectType::Index { .. } => 2,
            SchemaObjectType::Event { .. } => 3,
            SchemaObjectType::Access => 4,
        }
    }

    /// A copy with the same view.
    pub fn duplicate(&self) -> (r: SchemaObjectType)
        ensures
            r@ == self@,
    {
        match self {
            SchemaObjectType::Table => SchemaObjectType::Table,
            SchemaObjectType::Field { table } => SchemaObjectType::Field { table: table.clone() },
            SchemaObjectType::Index { table } => SchemaObjectType::Index { table: table.clone() },
            SchemaObjectType::Event { table } => SchemaObjectType::Event { table: table.clone() },
            SchemaObjectType::Access => SchemaObjectType::Access,
        }
    }
}

#[derive(Debug, Clone)]
pub struct SchemaObject {
    pub object_type: SchemaObjectType,
    pub name: String,
    pub definition: String,
}

pub struct SchemaObjectView {
    pub object_type: SchemaObjectTypeView,
    pub name: Seq<char>,
    pub definition: Seq<char>,
}

impl View for SchemaObject {
    type V = SchemaObjectView;

    open spec fn view(&self) -> SchemaObjectView {
        SchemaObjectView {
            object_type: self.object_type@,
            name: self.name@,
            definition: self.definition@,
        }
    }
}

impl SchemaObjectView {
    /// The catalog key of an object: its kind, its table where it has one,
    /// and its name.
    pub open spec fn key(self) -> Seq<char> {
        match self.object_type {
            SchemaObjectTypeView::Table => "table:"@ + self.name,
            SchemaObjectTypeView::Field(t) => "field:"@ + t + "."@ + self.name,
            SchemaObjectTypeView::Index(t) => "index:"@ + t + "."@ + self.name,
            SchemaObjectTypeView::Event(t) => "event:"@ + t + "."@ + self.name,
            SchemaObjectTypeView::Access => "access:"@ + self.name,
        }
    }
}

/// `a + b + c` for character vectors.
fn concat3(a: &[char], b: &[char], c: &[char]) -> (r: Vec<char>)
    ensures
        r@ == a@ + b@ + c@,
{
    let mut r = copy_range(a, 0, a.len());
    append_chars(&mut r, b);
    append_chars(&mut r, c);
    r
}

impl SchemaObject {
    /// The catalog key, as characters.
    pub fn key_chars(&self) -> (k: Vec<char>)
        ensures
            k@ == self@.key(),
    {
        let name = chars_of(self.name.as_str());
        match &self.object_type {
            SchemaObjectType::Table => concat3(&chars_of("table:"), &[], &name),
            SchemaObjectType::Field { table } => {
                let mut k = concat3(&chars_of("field:"), &chars_of(table.as_str()), &chars_of("."));
                append_chars(&mut k, &name);
                k
            },
            SchemaObjectType::Index { table } => {
                let mut k = concat3(&chars_of("index:"), &chars_of(table.as_str()), &chars_of("."));
                append_chars(&mut k, &name);
                k
            },
            SchemaObjectType::Event { table } => {
                let mut k = concat3(&chars_of("event:"), &chars_of(table.as_str()), &chars_of("."));
                append_chars(&mut k, &name);
                k
            },
            SchemaObjectType::Access => concat3(&chars_of("access:"), &[], &name),
        }
    }

    pub fn key(&self) -> (k: String)
        ensures
            k@ == self@.key(),
    {
        let k = self.key_chars();
        string_of(&k)
    }

    /// A copy with the same view.
    pub fn duplicate(&self) -> (r: SchemaObject)
        ensures
            r@ == self@,
    {
        SchemaObject {
            object_type: self.object_type.duplicate(),
            name: self.name.clone(),
            definition: self.definition.clone(),
        }
    }
}

// ---------------------------------------------------------------------------
// Lexicographic order of keys
// ---------------------------------------------------------------------------

/// Lexicographic order by code point, which is the order of `String`.
pub open spec fn lex_lt(a: Seq<char>, b: Seq<char>) -> bool
    decreases a.len(),
{
    if a.len() == 0 {
        b.len() > 0
    } else if b.len() == 0 {
        false
    } else if a[0] != b[0] {
        a[0] < b[0]
    } else {
        lex_lt(a.drop_first(), b.drop_first())
    }
}

pub proof fn lemma_lex_irreflexive(a: Seq<char>)
    ensures
        !lex_lt(a, a),
    decreases a.len(),
{
    if a.len() > 0 {
        lemma_lex_irreflexive(a.drop_first());
    }
}

pub proof fn lemma_lex_transitive(a: Seq<char>, b: Seq<char>, c: Seq<char>)
    requires
        lex_lt(a, b),
        lex_lt(b, c),
    ensures
        lex_lt(a, c),
    decreases a.len(),
{
    if a.len() > 0 && b.len() > 0 && c.len() > 0 && a[0] == b[0] && b[0] == c[0] {
        lemma_lex_transitive(a.drop_first(), b.drop_first(), c.drop_first());
    }
}

pub proof fn lemma_lex_total(a: Seq<char>, b: Seq<char>)
    requires
        a != b,
    ensures
        lex_lt(a, b) || lex_lt(b, a),
    decreases a.len(),
{
    if a.len() > 0 && b.len() > 0 && a[0] == b[0] {
        if a.drop_first() == b.drop_first() {
            assert(a =~= seq![a[0]] + a.drop_first());
            assert(b =~= seq![b[0]] + b.drop_first());
        }
        lemma_lex_total(a.drop_first(), b.drop_first());
    } else if a.len() == 0 && b.len() == 0 {
        assert(a =~= b);
    }
}

proof fn lemma_lex_skip(a: Seq<char>, b: Seq<char>, i: int)
    requires
        0 <= i <= a.len(),
        i <= b.len(),
        a.take(i) == b.take(i),
    ensures
        lex_lt(a, b) == lex_lt(a.skip(i), b.skip(i)),
    decreases i,
{
    if i > 0 {
        assert(a.take(i - 1) =~= a.take(i).take(i - 1));
        assert(b.take(i - 1) =~= b.take(i).take(i - 1));
        lemma_lex_skip(a, b, i - 1);
        assert(a.skip(i - 1)[0] == a.take(i)[i - 1]);
        assert(b.skip(i - 1)[0] == b.take(i)[i - 1]);
        assert(a.skip(i - 1).drop_first() =~= a.skip(i));
        assert(b.skip(i - 1).drop_first() =~= b.skip(i));
    } else {
        assert(a.skip(0) =~= a);
        assert(b.skip(0) =~= b);
    }
}

pub fn lex_less(a: &[char], b: &[char]) -> (r: bool)
    ensures
        r == lex_lt(a@, b@),
{
    let mut i: usize = 0;
    while i < a.len() && i < b.len() && a[i] == b[i]
        invariant
            i <= a@.len(),
            i <= b@.len(),
            a@.take(i as int) == b@.take(i as int),
        decreases a@.len() - i,
    {
        assert(a@.take(i + 1) =~= a@.take(i as int).push(a@[i as int]));
        assert(b@.take(i + 1) =~= b@.take(i as int).push(b@[i as int]));
        i = i + 1;
    }
    proof {
        lemma_lex_skip(a@, b@, i as int);
    }
    if i == a.len() {
        i < b.len()
    } else if i == b.len() {
        false
    } else {
        a[i] < b[i]
    }
}

// ---------------------------------------------------------------------------
// The set of parsed objects, ordered by key
// ---------------------------------------------------------------------------

/// The map from key to object that a key-ordered list of objects holds.
pub open spec fn objects_map(s: Seq<SchemaObjectView>) -> Map<Seq<char>, SchemaObjectView>
    decreases s.len(),
{
    if s.len() == 0 {
        Map::empty()
    } else {
        objects_map(s.drop_last()).insert(s.last().key(), s.last())
    }
}

pub open spec fn keys_strictly_sorted(s: Seq<SchemaObjectView>) -> bool {
    forall|i: int, j: int| 0 <= i < j < s.len() ==> lex_lt(#[trigger] s[i].key(), #[trigger] s[j].key())
}

pub proof fn lemma_objects_map(s: Seq<SchemaObjectView>)
    requires
        keys_strictly_sorted(s),
    ensures
        forall|k: Seq<char>| #[trigger] objects_map(s).contains_key(k) <==> exists|i: int|
            0 <= i < s.len() && s[i].key() == k,
        forall|i: int| 0 <= i < s.len() ==> objects_map(s)[#[trigger] s[i].key()] == s[i],
    decreases s.len(),
{
    if s.len() > 0 {
        let p = s.drop_last();
        assert(keys_strictly_sorted(p));
        lemma_objects_map(p);
        let m = objects_map(s);
        assert forall|k: Seq<char>| #[trigger] m.contains_key(k) <==> exists|i: int|
            0 <= i < s.len() && s[i].key() == k by {
            assert(m.contains_key(k) == (k == s.last().key() || objects_map(p).contains_key(k)));
            if objects_map(p).contains_key(k) {
                let i = choose|i: int| 0 <= i < p.len() && p[i].key() == k;
                assert(p[i] == s[i]);
            }
            if k == s.last().key() {
                assert(s[s.len() - 1].key() == k);
            }
            if exists|i: int| 0 <= i < s.len() && s[i].key() == k {
                let i = choose|i: int| 0 <= i < s.len() && s[i].key() == k;
                if i < s.len() - 1 {
                    assert(p[i] == s[i]);
                    assert(p[i].key() == k);
                }
            }
        }
        assert forall|i: int| 0 <= i < s.len() implies m[#[trigger] s[i].key()] == s[i] by {
            if i < s.len() - 1 {
                assert(lex_lt(s[i].key(), s[s.len() - 1].key()));
                lemma_lex_irreflexive(s[i].key());
                assert(p[i] == s[i]);
            }
        }
    }
}

/// Parsed schema objects, kept in key order with one object per key.
pub struct SchemaObjects {
    entries: Vec<SchemaObject>,
    keys: Vec<Vec<char>>,
}

impl SchemaObjects {
    /// The objects in key order.
    pub closed spec fn ordered(&self) -> Seq<SchemaObjectView> {
        self.entries@.map_values(|o: SchemaObject| o@)
    }

    pub closed spec fn wf(&self) -> bool {
        &&& self.keys@.len() == self.entries@.len()
        &&& forall|i: int| 0 <= i < self.keys@.len() ==> #[trigger] self.keys@[i]@ == self.entries@[i]@.key()
        &&& keys_strictly_sorted(self.ordered())
    }

    pub fn new() -> (r: SchemaObjects)
        ensures
            r.wf(),
            r.ordered().len() == 0,
            r@ == Map::<Seq<char>, SchemaObjectView>::empty(),
    {
        let r = SchemaObjects { entries: Vec::new(), keys: Vec::new() };
        assert(r.ordered() =~= Seq::<SchemaObjectView>::empty());
        r
    }

    pub fn len(&self) -> (n: usize)
        ensures
            n == self.ordered().len(),
    {
        self.entries.len()
    }

    /// The objects in key order.
    pub fn values(&self) -> (r: &Vec<SchemaObject>)
        ensures
            r@.map_values(|o: SchemaObject| o@) == self.ordered(),
    {
        &self.entries
    }

    /// Position of `key`, if it is present.
    fn find(&self, key: &[char]) -> (r: Option<usize>)
        requires
            self.wf(),
        ensures
            match r {
                Some(i) => i < self.ordered().len() && self.ordered()[i as int].key() == key@,
                None => !self@.contains_key(key@),
            },
    {
        proof {
            lemma_objects_map(self.ordered());
        }
        for i in 0..self.keys.len()
            invariant
                self.wf(),
                forall|j: int| 0 <= j < i ==> self.ordered()[j].key() != key@,
        {
            if eq_chars(self.keys[i].as_slice(), key) {
                return Some(i);
            }
        }
        None
    }

    pub fn contains_key(&self, key: &str) -> (b: bool)
        requires
            self.wf(),
        ensures
            b == self@.contains_key(key@),
    {
        proof {
            lemma_objects_map(self.ordered());
        }
        let k = chars_of(key);
        self.find(&k).is_some()
    }

    pub fn get(&self, key: &str) -> (r: Option<&SchemaObject>)
        requires
            self.wf(),
        ensures
            match r {
                Some(o) => self@.contains_key(key@) && o@ == self@[key@],
                None => !self@.contains_key(key@),
            },
    {
        proof {
            lemma_objects_map(self.ordered());
        }
        let k = chars_of(key);
        match self.find(&k) {
            Some(i) => Some(&self.entries[i]),
            None => None,
        }
    }

    fn contains_key_chars(&self, key: &[char]) -> (b: bool)
        requires
            self.wf(),
        ensures
            b == self@.contains_key(key@),
    {
        proof {
            lemma_objects_map(self.ordered());
        }
        self.find(key).is_some()
    }

    fn get_chars(&self, key: &[char]) -> (r: Option<&SchemaObject>)
        requires
            self.wf(),
        ensures
            match r {
                Some(o) => self@.contains_key(key@) && o@ == self@[key@],
                None => !self@.contains_key(key@),
            },
    {
        proof {
            lemma_objects_map(self.ordered());
        }
        match self.find(key) {
            Some(i) => Some(&self.entries[i]),
            None => None,
        }
    }

    /// Adds `obj` under its key, replacing an object with the same key.
    pub fn insert(&mut self, obj: SchemaObject)
        requires
            old(self).wf(),
        ensures
            final(self).wf(),
            final(self)@ == old(self)@.insert(obj@.key(), obj@),
    {
        let key = obj.key_chars();
        let ghost s0 = self.ordered();
        proof {
            lemma_objects_map(s0);
            assert(s0 == old(self).ordered());
        }
        let mut i: usize = 0;
        while i < self.keys.len() && lex_less(self.keys[i].as_slice(), key.as_slice())
            invariant
                self.wf(),
                self.ordered() == s0,
                i <= self.keys@.len(),
                forall|j: int| 0 <= j < i ==> lex_lt(#[trigger] s0[j].key(), key@),
            decreases self.keys@.len() - i,
        {
            i = i + 1;
        }
        if i < self.keys.len() && eq_chars(self.keys[i].as_slice(), key.as_slice()) {
            self.entries.set(i, obj);
            proof {
                let s1 = self.ordered();
                assert(s1 =~= s0.update(i as int, obj@));
                assert(keys_strictly_sorted(s1)) by {
                    assert forall|a: int, b: int| 0 <= a < b < s1.len() implies lex_lt(
                        #[trigger] s1[a].key(),
                        #[trigger] s1[b].key(),
                    ) by {
                        assert(lex_lt(s0[a].key(), s0[b].key()));
                    }
                }
                lemma_objects_map(s1);
                assert(s1[i as int].key() == obj@.key());
                assert(s0[i as int].key() == obj@.key());
                assert forall|k: Seq<char>| #[trigger] self@.contains_key(k) <==> old(self)@.insert(
                    obj@.key(),
                    obj@,
                ).contains_key(k) by {
                    if exists|j: int| 0 <= j < s0.len() && s0[j].key() == k {
                        let j = choose|j: int| 0 <= j < s0.len() && s0[j].key() == k;
                        if j == i {
                            assert(s1[i as int].key() == k);
                        } else {
                            assert(s1[j].key() == k);
                        }
                    }
                    if exists|j: int| 0 <= j < s1.len() && s1[j].key() == k {
                        let j = choose|j: int| 0 <= j < s1.len() && s1[j].key() == k;
                        if j != i {
                            assert(s0[j].key() == k);
                        }
                    }
                }
                assert forall|k: Seq<char>| #[trigger] self@.contains_key(k) implies self@[k]
                    == old(self)@.insert(obj@.key(), obj@)[k] by {
                    let j = choose|j: int| 0 <= j < s1.len() && s1[j].key() == k;
                    assert(self@[s1[j].key()] == s1[j]);
                    if j != i {
                        assert(old(self)@[s0[j].key()] == s0[j]);
                        assert(k != obj@.key()) by {
                            lemma_lex_irreflexive(k);
                            if j < i {
                                assert(lex_lt(s0[j].key(), s0[i as int].key()));
                            } else {
                                assert(lex_lt(s0[i as int].key(), s0[j].key()));
                            }
                        }
                    }
                }
                assert(self@ =~= old(self)@.insert(obj@.key(), obj@));
            }
        } else {
            proof {
                if i < s0.len() {
                    lemma_lex_total(s0[i as int].key(), key@);
                }
            }
            self.entries.insert(i, obj);
            self.keys.insert(i, key);
            proof {
                let s1 = self.ordered();
                assert(s1 =~= s0.insert(i as int, obj@));
                assert forall|j: int| 0 <= j < self.keys@.len() implies #[trigger] self.keys@[j]@
                    == self.entries@[j]@.key() by {
                    if j < i {
                        assert(self.keys@[j] == old(self).keys@[j]);
                    } else if j > i {
                        assert(self.keys@[j] == old(self).keys@[j - 1]);
                    }
                }
                assert(keys_strictly_sorted(s1)) by {
                    assert forall|a: int, b: int| 0 <= a < b < s1.len() implies lex_lt(
                        #[trigger] s1[a].key(),
                        #[trigger] s1[b].key(),
                    ) by {
                        if a < i && b < i {
                            assert(lex_lt(s0[a].key(), s0[b].key()));
                        } else if a < i && b == i {
                        } else if a < i && b > i {
                            assert(lex_lt(s0[a].key(), s0[b - 1].key()));
                        } else if a == i {
                            if b - 1 > i {
                                assert(lex_lt(s0[i as int].key(), s0[b - 1].key()));
                                lemma_lex_transitive(key@, s0[i as int].key(), s0[b - 1].key());
                            }
                        } else {
                            assert(lex_lt(s0[a - 1].key(), s0[b - 1].key()));
                        }
                    }
                }
                lemma_objects_map(s1);
                assert(s1[i as int] == obj@);
                assert forall|k: Seq<char>| #[trigger] self@.contains_key(k) <==> old(self)@.insert(
                    obj@.key(),
                    obj@,
                ).contains_key(k) by {
                    if k == obj@.key() {
                        assert(s1[i as int].key() == k);
                    }
                    if exists|j: int| 0 <= j < s0.len() && s0[j].key() == k {
                        let j = choose|j: int| 0 <= j < s0.len() && s0[j].key() == k;
                        if j < i {
                            assert(s1[j].key() == k);
                        } else {
                            assert(s1[j + 1].key() == k);
                        }
                    }
                    if exists|j: int| 0 <= j < s1.len() && s1[j].key() == k {
                        let j = choose|j: int| 0 <= j < s1.len() && s1[j].key() == k;
                        if j < i {
                            assert(s0[j].key() == k);
                        } else if j > i {
                            assert(s0[j - 1].key() == k);
                        }
                    }
                }
                assert forall|k: Seq<char>| #[trigger] self@.contains_key(k) implies self@[k]
                    == old(self)@.insert(obj@.key(), obj@)[k] by {
                    let j = choose|j: int| 0 <= j < s1.len() && s1[j].key() == k;
                    assert(self@[s1[j].key()] == s1[j]);
                    if j < i {
                        assert(old(self)@[s0[j].key()] == s0[j]);
                        assert(k != key@) by {
                            lemma_lex_irreflexive(k);
                        }
                    } else if j > i {
                        assert(old(self)@[s0[j - 1].key()] == s0[j - 1]);
                        assert(k != key@) by {
                            lemma_lex_irreflexive(k);
                            if i < s0.len() {
                                if j - 1 > i {
                                    assert(lex_lt(s0[i as int].key(), s0[j - 1].key()));
                                    lemma_lex_transitive(key@, s0[i as int].key(), s0[j - 1].key());
                                }
                            }
                        }
                    }
                }
                assert(self@ =~= old(self)@.insert(obj@.key(), obj@));
            }
        }
    }
}

impl View for SchemaObjects {
    type V = Map<Seq<char>, SchemaObjectView>;

    closed spec fn view(&self) -> Map<Seq<char>, SchemaObjectView> {
        objects_map(self.ordered())
    }
}

// ---------------------------------------------------------------------------
// Splitting schema text into statements
// ---------------------------------------------------------------------------

/// The state of the statement scanner: whether it is inside a double- or
/// single-quoted string or a line comment, the statement read so far, and
/// the statements completed.
pub struct ScanState {
    pub in_double: bool,
    pub in_single: bool,
    pub in_comment: bool,
    pub current: Seq<char>,
    pub statements: Seq<Seq<char>>,
}

/// Completes a statement: it is kept, trimmed, when it is not blank.
pub open spec fn close_statement(statements: Seq<Seq<char>>, current: Seq<char>) -> Seq<Seq<char>> {
    if trim(current).len() > 0 {
        statements.push(trim(current))
    } else {
        statements
    }
}

/// The statements of `s` read from position `i` on, in state `st`.
///
/// Outside strings, `#`, `--` and `//` start a comment that runs to the end
/// of the line; the newline ending it is dropped with it. Outside strings, a
/// `;` ends the statement. A quote of either kind opens or closes a string
/// unless it stands inside a string of the other kind.
pub open spec fn scan(s: Seq<char>, i: int, st: ScanState) -> Seq<Seq<char>>
    decreases s.len() - i,
{
    if i < 0 || i >= s.len() {
        close_statement(st.statements, st.current)
    } else {
        let c = s[i];
        if st.in_comment {
            scan(
                s,
                i + 1,
                ScanState {
                    in_double: st.in_double,
                    in_single: st.in_single,
                    in_comment: c != '\n',
                    current: st.current,
                    statements: st.statements,
                },
            )
        } else if !st.in_double && !st.in_single && c == '#' {
            scan(
                s,
                i + 1,
                ScanState {
                    in_double: st.in_double,
                    in_single: st.in_single,
                    in_comment: true,
                    current: st.current,
                    statements: st.statements,
                },
            )
        } else if !st.in_double && !st.in_single && (c == '-' || c == '/') && i + 1 < s.len()
            && s[i + 1] == c {
            scan(
                s,
                i + 2,
                ScanState {
                    in_double: st.in_double,
                    in_single: st.in_single,
                    in_comment: true,
                    current: st.current,
                    statements: st.statements,
                },
            )
        } else {
            let dq = if c == '"' && !st.in_single {
                !st.in_double
            } else {
                st.in_double
            };
            let sq = if c == '\'' && !dq {
                !st.in_single
            } else {
                st.in_single
            };
            if c == ';' && !dq && !sq {
                scan(
                    s,
                    i + 1,
                    ScanState {
                        in_double: dq,
                        in_single: sq,
                        in_comment: false,
                        current: Seq::empty(),
                        statements: close_statement(st.statements, st.current),
                    },
                )
            } else {
                scan(
                    s,
                    i + 1,
                    ScanState {
                        in_double: dq,
                        in_single: sq,
                        in_comment: false,
                        current: st.current.push(c),
                        statements: st.statements,
                    },
                )
            }
        }
    }
}

/// The trimmed, non-blank statements of a schema text.
pub open spec fn split_statements(s: Seq<char>) -> Seq<Seq<char>> {
    scan(
        s,
        0,
        ScanState {
            in_double: false,
            in_single: false,
            in_comment: false,
            current: Seq::empty(),
            statements: Seq::empty(),
        },
    )
}

fn close_statement_exec(statements: &mut Vec<Vec<char>>, current: &Vec<char>)
    ensures
        seqs_of(final(statements)@) == close_statement(seqs_of(old(statements)@), current@),
{
    let t = trim_chars(current.as_slice());
    if t.len() > 0 {
        statements.push(t);
        assert(seqs_of(statements@) =~= seqs_of(old(statements)@).push(trim(current@)));
    }
}

/// Splits schema text into its statements.
pub fn split_statements_chars(s: &[char]) -> (r: Vec<Vec<char>>)
    ensures
        seqs_of(r@) == split_statements(s@),
{
    let mut in_double = false;
    let mut in_single = false;
    let mut in_comment = false;
    let mut current: Vec<char> = Vec::new();
    let mut statements: Vec<Vec<char>> = Vec::new();
    let mut i: usize = 0;
    assert(seqs_of(statements@) =~= Seq::<Seq<char>>::empty());
    assert(current@ =~= Seq::<char>::empty());
    while i < s.len()
        invariant
            i <= s@.len(),
            scan(
                s@,
                i as int,
                ScanState {
                    in_double,
                    in_single,
                    in_comment,
                    current: current@,
                    statements: seqs_of(statements@),
                },
            ) == split_statements(s@),
        decreases s@.len() - i,
    {
        let c = s[i];
        if in_comment {
            if c == '\n' {
                in_comment = false;
            }
            i = i + 1;
        } else if !in_double && !in_single && c == '#' {
            in_comment = true;
            i = i + 1;
        } else if !in_double && !in_single && (c == '-' || c == '/') && i + 1 < s.len() && s[i
            + 1] == c {
            in_comment = true;
            i = i + 2;
        } else {
            if c == '"' && !in_single {
                in_double = !in_double;
            }
            if c == '\'' && !in_double {
                in_single = !in_single;
            }
            if c == ';' && !in_double && !in_single {
                close_statement_exec(&mut statements, &current);
                current = Vec::new();
                assert(current@ =~= Seq::<char>::empty());
            } else {
                current.push(c);
            }
            i = i + 1;
        }
    }
    close_statement_exec(&mut statements, &current);
    statements
}

// ---------------------------------------------------------------------------
// Recognising DEFINE statements
// ---------------------------------------------------------------------------

/// Index of the first word at or after `i` whose uppercase is `ON`.
pub open spec fn find_on(t: Seq<Seq<char>>, i: int) -> Option<int>
    decreases t.len() - i,
{
    if i < 0 || i >= t.len() {
        None
    } else if upper_of(t[i]) == "ON"@ {
        Some(i)
    } else {
        find_on(t, i + 1)
    }
}

/// The table named after the `ON` at index `on`, with an optional `TABLE`
/// keyword skipped and `;` characters removed; empty when there is none.
pub open spec fn table_after_on(t: Seq<Seq<char>>, on: int) -> Seq<char> {
    let next = if on + 1 < t.len() {
        upper_of(t[on + 1])
    } else {
        Seq::empty()
    };
    let at = if next == "TABLE"@ {
        on + 2
    } else {
        on + 1
    };
    if 0 <= at < t.len() {
        without_char(t[at], ';')
    } else {
        Seq::empty()
    }
}

/// The kind of object a DEFINE statement with words `t` defines.
pub open spec fn classify_type(t: Seq<Seq<char>>) -> Option<SchemaObjectTypeView> {
    let kind = upper_of(t[1]);
    if kind == "TABLE"@ {
        Some(SchemaObjectTypeView::Table)
    } else if kind == "FIELD"@ || kind == "INDEX"@ || kind == "EVENT"@ {
        match find_on(t, 0) {
            Some(on) => {
                let table = lower_of(table_after_on(t, on));
                if kind == "FIELD"@ {
                    Some(SchemaObjectTypeView::Field(table))
                } else if kind == "INDEX"@ {
                    Some(SchemaObjectTypeView::Index(table))
                } else {
                    Some(SchemaObjectTypeView::Event(table))
                }
            },
            None => None,
        }
    } else if kind == "ACCESS"@ || kind == "SCOPE"@ {
        Some(SchemaObjectTypeView::Access)
    } else {
        None
    }
}

/// The object a statement defines, if it is a DEFINE statement of a kind the
/// parser knows.
pub open spec fn classify_statement(stmt: Seq<char>) -> Option<SchemaObjectView> {
    let t = split_ws(stmt);
    if !"DEFINE"@.is_prefix_of(upper_of(stmt)) || t.len() < 3 {
        None
    } else {
        match classify_type(t) {
            Some(ty) => Some(
                SchemaObjectView {
                    object_type: ty,
                    name: lower_of(without_char(t[2], ':')),
                    definition: stmt,
                },
            ),
            None => None,
        }
    }
}

/// The objects defined by a list of statements; a later definition of a key
/// replaces an earlier one.
pub open spec fn objects_of(stmts: Seq<Seq<char>>) -> Map<Seq<char>, SchemaObjectView>
    decreases stmts.len(),
{
    if stmts.len() == 0 {
        Map::empty()
    } else {
        match classify_statement(stmts.last()) {
            Some(o) => objects_of(stmts.drop_last()).insert(o.key(), o),
            None => objects_of(stmts.drop_last()),
        }
    }
}

proof fn lemma_find_on_range(t: Seq<Seq<char>>, i: int)
    requires
        0 <= i,
    ensures
        find_on(t, i) matches Some(k) ==> i <= k < t.len(),
    decreases t.len() - i,
{
    if i < t.len() && upper_of(t[i]) != "ON"@ {
        lemma_find_on_range(t, i + 1);
    }
}

fn find_on_exec(t: &Vec<Vec<char>>) -> (r: Option<usize>)
    ensures
        r is Some ==> r->0 < t@.len() && find_on(seqs_of(t@), 0) == Some(r->0 as int),
        r is None ==> (find_on(seqs_of(t@), 0) is None),
{
    let ghost ts = seqs_of(t@);
    proof {
        lemma_find_on_range(ts, 0);
    }
    let on = chars_of("ON");
    let mut i: usize = 0;
    while i < t.len()
        invariant
            ts == seqs_of(t@),
            on@ == "ON"@,
            i <= t@.len(),
            find_on(ts, i as int) == find_on(ts, 0),
        decreases t@.len() - i,
    {
        let u = upper_chars(t[i].as_slice());
        if eq_chars(u.as_slice(), on.as_slice()) {
            return Some(i);
        }
        i = i + 1;
    }
    None
}

fn table_after_on_exec(t: &Vec<Vec<char>>, on: usize) -> (r: Vec<char>)
    requires
        on < t.len(),
    ensures
        r@ == table_after_on(seqs_of(t@), on as int),
{
    proof {
        reveal_strlit("TABLE");
    }
    let has_next = on + 1 < t.len();
    let next = if has_next {
        upper_chars(t[on + 1].as_slice())
    } else {
        Vec::new()
    };
    let at = if has_next && eq_chars(next.as_slice(), chars_of("TABLE").as_slice()) {
        on + 2
    } else {
        on + 1
    };
    if at < t.len() {
        remove_char(t[at].as_slice(), ';')
    } else {
        Vec::new()
    }
}

fn classify_type_exec(t: &Vec<Vec<char>>) -> (r: Option<SchemaObjectType>)
    requires
        t@.len() >= 3,
    ensures
        match classify_type(seqs_of(t@)) {
            Some(ty) => r is Some && r->0@ == ty,
            None => r is None,
        },
{
    assert(seqs_of(t@)[1] == t@[1]@);
    let kind = upper_chars(t[1].as_slice());
    if eq_chars(kind.as_slice(), chars_of("TABLE").as_slice()) {
        Some(SchemaObjectType::Table)
    } else if eq_chars(kind.as_slice(), chars_of("FIELD").as_slice()) || eq_chars(
        kind.as_slice(),
        chars_of("INDEX").as_slice(),
    ) || eq_chars(kind.as_slice(), chars_of("EVENT").as_slice()) {
        assert(kind@ == upper_of(seqs_of(t@)[1]));
        match find_on_exec(t) {
            Some(on) => {
                let table = string_of(&lower_chars(table_after_on_exec(t, on).as_slice()));
                assert(table@ == lower_of(table_after_on(seqs_of(t@), on as int)));
                assert(find_on(seqs_of(t@), 0) == Some(on as int));
                if eq_chars(kind.as_slice(), chars_of("FIELD").as_slice()) {
                    Some(SchemaObjectType::Field { table })
                } else if eq_chars(kind.as_slice(), chars_of("INDEX").as_slice()) {
                    Some(SchemaObjectType::Index { table })
                } else {
                    Some(SchemaObjectType::Event { table })
                }
            },
            None => {
                None
            },
        }
    } else if eq_chars(kind.as_slice(), chars_of("ACCESS").as_slice()) || eq_chars(
        kind.as_slice(),
        chars_of("SCOPE").as_slice(),
    ) {
        Some(SchemaObjectType::Access)
    } else {
        None
    }
}

/// The object a statement defines, if any.
pub fn classify_statement_exec(stmt: &Vec<char>) -> (r: Option<SchemaObject>)
    ensures
        match classify_statement(stmt@) {
            Some(o) => r is Some && r->0@ == o,
            None => r is None,
        },
{
    let upper = upper_chars(stmt.as_slice());
    let t = split_whitespace(stmt.as_slice());
    if !starts_with_chars(upper.as_slice(), chars_of("DEFINE").as_slice()) || t.len() < 3 {
        return None;
    }
    assert(seqs_of(t@)[2] == t@[2]@);
    match classify_type_exec(&t) {
        Some(object_type) => {
            let name = string_of(&lower_chars(remove_char(t[2].as_slice(), ':').as_slice()));
            let definition = string_of(stmt.as_slice());
            Some(SchemaObject { object_type, name, definition })
        },
        None => None,
    }
}

/// Extracts the DEFINE statements of a schema text: tables, fields, indexes,
/// events and access methods (scopes count as access methods). Comments and
/// statements of other kinds are ignored. Object names and table names are
/// lowercased, a `:` in an object name is dropped, and each object keeps its
/// whole statement as its definition.
pub fn parse_schema(schema_text: &str) -> (r: SchemaObjects)
    ensures
        r.wf(),
        r@ == objects_of(split_statements(schema_text@)),
{
    let text = chars_of(schema_text);
    let statements = split_statements_chars(text.as_slice());
    let ghost stmts = seqs_of(statements@);
    let mut objects = SchemaObjects::new();
    for k in 0..statements.len()
        invariant
            stmts == seqs_of(statements@),
            stmts == split_statements(schema_text@),
            objects.wf(),
            objects@ == objects_of(stmts.take(k as int)),
    {
        assert(stmts.take(k + 1).drop_last() =~= stmts.take(k as int));
        assert(stmts.take(k + 1).last() == statements@[k as int]@);
        match classify_statement_exec(&statements[k]) {
            Some(obj) => objects.insert(obj),
            None => {},
        }
    }
    assert(stmts.take(statements@.len() as int) =~= stmts);
    objects
}

// ---------------------------------------------------------------------------
// Rewriting a definition to overwrite an existing object
// ---------------------------------------------------------------------------

/// `trimmed` with `OVERWRITE` placed after the kind of a DEFINE statement
/// (`DEFINE <kind> OVERWRITE <rest>`), replacing an `IF NOT EXISTS` clause.
/// Statements that are not DEFINE statements, that already say OVERWRITE, or
/// that have fewer than three parts are returned trimmed.
pub open spec fn overwrite_of(definition: Seq<char>) -> Seq<char> {
    let t = trim(definition);
    let e1 = word_end(t, 0);
    let e2 = word_end(t, e1 + 1);
    if !"DEFINE "@.is_prefix_of(ascii_upper_seq(t)) || e1 >= t.len() || e2 >= t.len() {
        t
    } else {
        let kind = t.subrange(e1 + 1, e2);
        let rest = trim_start(t.skip(e2 + 1));
        let rest_upper = ascii_upper_seq(rest);
        if "OVERWRITE"@.is_prefix_of(rest_upper) {
            t
        } else {
            let rewritten = if "IF NOT EXISTS"@.is_prefix_of(rest_upper) {
                trim_start(rest.skip(13))
            } else {
                rest
            };
            if rewritten.len() == 0 {
                "DEFINE "@ + kind + " OVERWRITE"@
            } else {
                "DEFINE "@ + kind + " OVERWRITE "@ + rewritten
            }
        }
    }
}

fn word_end_exec(s: &[char], i: usize) -> (r: usize)
    requires
        i <= s@.len(),
    ensures
        r == word_end(s@, i as int),
        i <= r <= s@.len(),
{
    proof {
        lemma_word_end_bounds(s@, i as int);
    }
    let mut k = i;
    while k < s.len() && !is_whitespace(s[k])
        invariant
            i <= k <= s@.len(),
            word_end(s@, k as int) == word_end(s@, i as int),
        decreases s@.len() - k,
    {
        k = k + 1;
    }
    k
}

fn make_overwrite_chars(definition: &[char]) -> (r: Vec<char>)
    ensures
        r@ == overwrite_of(definition@),
{
    let t = trim_chars(definition);
    let upper = to_ascii_upper_chars(t.as_slice());
    if !starts_with_chars(upper.as_slice(), chars_of("DEFINE ").as_slice()) {
        return t;
    }
    let e1 = word_end_exec(t.as_slice(), 0);
    if e1 >= t.len() {
        return t;
    }
    let e2 = word_end_exec(t.as_slice(), e1 + 1);
    if e2 >= t.len() {
        return t;
    }
    let kind = copy_range(t.as_slice(), e1 + 1, e2);
    let rest = trim_start_chars(copy_range(t.as_slice(), e2 + 1, t.len()).as_slice());
    assert(t@.subrange(e2 + 1, t@.len() as int) =~= t@.skip(e2 + 1));
    let rest_upper = to_ascii_upper_chars(rest.as_slice());
    if starts_with_chars(rest_upper.as_slice(), chars_of("OVERWRITE").as_slice()) {
        return t;
    }
    let if_not_exists = chars_of("IF NOT EXISTS");
    proof {
        reveal_strlit("IF NOT EXISTS");
    }
    let rewritten = if starts_with_chars(rest_upper.as_slice(), if_not_exists.as_slice()) {
        let tail = copy_range(rest.as_slice(), 13, rest.len());
        assert(tail@ =~= rest@.skip(13));
        trim_start_chars(tail.as_slice())
    } else {
        rest
    };
    let mut r = chars_of("DEFINE ");
    append_chars(&mut r, kind.as_slice());
    if rewritten.len() == 0 {
        append_chars(&mut r, chars_of(" OVERWRITE").as_slice());
    } else {
        append_chars(&mut r, chars_of(" OVERWRITE ").as_slice());
        append_chars(&mut r, rewritten.as_slice());
    }
    r
}

/// Rewrites a DEFINE statement so that it overwrites an existing object.
pub fn make_overwrite(definition: &str) -> (r: String)
    ensures
        r@ == overwrite_of(definition@),
{
    let d = chars_of(definition);
    string_of(make_overwrite_chars(d.as_slice()).as_slice())
}

// ---------------------------------------------------------------------------
// Canonical forms of table and field definitions
// ---------------------------------------------------------------------------

/// The words of a definition, trimmed and without its trailing `;`s.
pub open spec fn definition_words(definition: Seq<char>) -> Seq<Seq<char>> {
    split_ws(trim_end_char(trim(definition), ';'))
}

/// The uppercase words of a table definition, each without trailing `;`s.
pub open spec fn table_words(definition: Seq<char>) -> Seq<Seq<char>> {
    definition_words(definition).map_values(|w: Seq<char>| upper_of(trim_end_char(w, ';')))
}

pub struct CanonicalTableView {
    pub name: Seq<char>,
    pub schema_mode: Option<Seq<char>>,
    pub table_type: Option<Seq<char>>,
    pub permissions: Option<Seq<char>>,
}

/// The clauses of a table definition read from word `i` on: the last schema
/// mode (`SCHEMAFULL` or `SCHEMALESS`), the word after the last `TYPE`, and
/// everything after the first `PERMISSIONS`, joined by single spaces.
pub open spec fn table_clauses(
    w: Seq<Seq<char>>,
    i: int,
    mode: Option<Seq<char>>,
    ty: Option<Seq<char>>,
) -> (Option<Seq<char>>, Option<Seq<char>>, Option<Seq<char>>)
    decreases w.len() - i,
{
    if i < 0 || i >= w.len() {
        (mode, ty, None)
    } else if w[i] == "TYPE"@ {
        if i + 1 < w.len() {
            table_clauses(w, i + 2, mode, Some(w[i + 1]))
        } else {
            table_clauses(w, i + 1, mode, ty)
        }
    } else if w[i] == "SCHEMAFULL"@ || w[i] == "SCHEMALESS"@ {
        table_clauses(w, i + 1, Some(w[i]), ty)
    } else if w[i] == "PERMISSIONS"@ {
        (mode, ty, Some(join(w.skip(i + 1), " "@)))
    } else {
        table_clauses(w, i + 1, mode, ty)
    }
}

/// The canonical form of a `DEFINE TABLE` statement, if it is one.
pub open spec fn canonical_table(definition: Seq<char>) -> Option<CanonicalTableView> {
    let w = table_words(definition);
    if w.len() < 3 || w[0] != "DEFINE"@ || w[1] != "TABLE"@ {
        None
    } else {
        let i: int = if w[2] == "OVERWRITE"@ {
            3
        } else {
            2
        };
        if i >= w.len() {
            None
        } else {
            let clauses = table_clauses(w, i + 1, None, None);
            Some(
                CanonicalTableView {
                    name: w[i],
                    schema_mode: clauses.0,
                    table_type: clauses.1,
                    permissions: clauses.2,
                },
            )
        }
    }
}

pub open spec fn opt_view(o: Option<String>) -> Option<Seq<char>> {
    match o {
        Some(s) => Some(s@),
        None => None,
    }
}

#[derive(Debug, Clone)]
pub struct CanonicalTableDef {
    pub name: String,
    pub schema_mode: Option<String>,
    pub table_type: Option<String>,
    pub permissions: Option<String>,
}

impl View for CanonicalTableDef {
    type V = CanonicalTableView;

    open spec fn view(&self) -> CanonicalTableView {
        CanonicalTableView {
            name: self.name@,
            schema_mode: opt_view(self.schema_mode),
            table_type: opt_view(self.table_type),
            permissions: opt_view(self.permissions),
        }
    }
}

fn definition_words_exec(definition: &[char]) -> (r: Vec<Vec<char>>)
    ensures
        seqs_of(r@) == definition_words(definition@),
{
    let t = trim_chars(definition);
    let c = trim_end_char_chars(t.as_slice(), ';');
    split_whitespace(c.as_slice())
}

pub open spec fn opt_chars_view(o: Option<Vec<char>>) -> Option<Seq<char>> {
    match o {
        Some(v) => Some(v@),
        None => None,
    }
}

fn opt_string(o: &Option<Vec<char>>) -> (r: Option<String>)
    ensures
        opt_view(r) == opt_chars_view(*o),
{
    match o {
        Some(v) => Some(string_of(v.as_slice())),
        None => None,
    }
}

fn clone_chars(v: &Vec<char>) -> (r: Vec<char>)
    ensures
        r@ == v@,
{
    let r = copy_range(v.as_slice(), 0, v.len());
    assert(r@ =~= v@);
    r
}

fn copy_words(w: &Vec<Vec<char>>, from: usize) -> (r: Vec<Vec<char>>)
    requires
        from <= w@.len(),
    ensures
        seqs_of(r@) == seqs_of(w@).skip(from as int),
{
    let mut r: Vec<Vec<char>> = Vec::new();
    let mut i = from;
    while i < w.len()
        invariant
            from <= i <= w@.len(),
            seqs_of(r@) == seqs_of(w@).subrange(from as int, i as int),
        decreases w@.len() - i,
    {
        let ghost r0 = r@;
        let c = clone_chars(&w[i]);
        r.push(c);
        assert(seqs_of(w@)[i as int] == w@[i as int]@);
        assert(seqs_of(r@) =~= seqs_of(r0).push(w@[i as int]@));
        assert(seqs_of(r@) =~= seqs_of(w@).subrange(from as int, i + 1));
        i = i + 1;
    }
    assert(seqs_of(w@).subrange(from as int, w@.len() as int) =~= seqs_of(w@).skip(from as int));
    r
}

fn parse_canonical_table_chars(definition: &[char]) -> (r: Option<CanonicalTableDef>)
    ensures
        match canonical_table(definition@) {
            Some(c) => r is Some && r->0@ == c,
            None => r is None,
        },
{
    let words = definition_words_exec(definition);
    let ghost dw = seqs_of(words@);
    let mut w: Vec<Vec<char>> = Vec::new();
    for k in 0..words.len()
        invariant
            dw == seqs_of(words@),
            dw == definition_words(definition@),
            seqs_of(w@) == dw.take(k as int).map_values(
                |x: Seq<char>| upper_of(trim_end_char(x, ';')),
            ),
    {
        assert(dw[k as int] == words@[k as int]@);
        let u = upper_chars(trim_end_char_chars(words[k].as_slice(), ';').as_slice());
        let ghost w0 = w@;
        w.push(u);
        assert(seqs_of(w@) =~= seqs_of(w0).push(u@));
        assert(seqs_of(w@) =~= dw.take(k + 1).map_values(
            |x: Seq<char>| upper_of(trim_end_char(x, ';')),
        ));
    }
    let ghost tw = table_words(definition@);
    assert(dw.take(words@.len() as int) =~= dw);
    assert(seqs_of(w@) == tw);
    if w.len() < 3 || !eq_chars(w[0].as_slice(), chars_of("DEFINE").as_slice()) || !eq_chars(
        w[1].as_slice(),
        chars_of("TABLE").as_slice(),
    ) {
        assert(w@.len() >= 3 ==> seqs_of(w@)[0] == w@[0]@ && seqs_of(w@)[1] == w@[1]@);
        return None;
    }
    assert(seqs_of(w@)[2] == w@[2]@);
    let i: usize = if eq_chars(w[2].as_slice(), chars_of("OVERWRITE").as_slice()) {
        3
    } else {
        2
    };
    if i >= w.len() {
        return None;
    }
    assert(seqs_of(w@)[i as int] == w@[i as int]@);
    let name = string_of(w[i].as_slice());
    let mut mode: Option<Vec<char>> = None;
    let mut ty: Option<Vec<char>> = None;
    let mut perms: Option<Vec<char>> = None;
    let mut k = i + 1;
    let type_kw = chars_of("TYPE");
    let full_kw = chars_of("SCHEMAFULL");
    let less_kw = chars_of("SCHEMALESS");
    let perm_kw = chars_of("PERMISSIONS");
    while k < w.len()
        invariant_except_break
            perms is None,
            table_clauses(tw, k as int, opt_chars_view(mode), opt_chars_view(ty)) == table_clauses(
                tw,
                i + 1,
                None,
                None,
            ),
        invariant
            seqs_of(w@) == tw,
            i + 1 <= k <= w@.len(),
            type_kw@ == "TYPE"@,
            full_kw@ == "SCHEMAFULL"@,
            less_kw@ == "SCHEMALESS"@,
            perm_kw@ == "PERMISSIONS"@,
        ensures
            table_clauses(tw, i + 1, None, None) == (
                opt_chars_view(mode),
                opt_chars_view(ty),
                opt_chars_view(perms),
            ),
        decreases w@.len() - k,
    {
        assert(tw[k as int] == w@[k as int]@);
        if eq_chars(w[k].as_slice(), type_kw.as_slice()) {
            if k + 1 < w.len() {
                assert(tw[k + 1] == w@[k + 1]@);
                ty = Some(clone_chars(&w[k + 1]));
                k = k + 2;
            } else {
                k = k + 1;
            }
        } else if eq_chars(w[k].as_slice(), full_kw.as_slice()) || eq_chars(
            w[k].as_slice(),
            less_kw.as_slice(),
        ) {
            mode = Some(clone_chars(&w[k]));
            k = k + 1;
        } else if eq_chars(w[k].as_slice(), perm_kw.as_slice()) {
            let rest = copy_words(&w, k + 1);
            perms = Some(join_chars(&rest, chars_of(" ").as_slice()));
            break;
        } else {
            k = k + 1;
        }
    }
    Some(
        CanonicalTableDef {
            name,
            schema_mode: opt_string(&mode),
            table_type: opt_string(&ty),
            permissions: opt_string(&perms),
        },
    )
}

/// The canonical form of a `DEFINE TABLE` statement: its name, schema mode,
/// table type and permissions, all uppercased.
pub fn parse_canonical_table_definition(definition: &str) -> (r: Option<CanonicalTableDef>)
    ensures
        match canonical_table(definition@) {
            Some(c) => r is Some && r->0@ == c,
            None => r is None,
        },
{
    let d = chars_of(definition);
    parse_canonical_table_chars(d.as_slice())
}

/// Whether a live table definition satisfies a desired one: when both parse,
/// the names agree and every clause the desired definition states has the
/// same value in the live one; otherwise the trimmed texts are equal.
pub open spec fn tables_equivalent(desired: Seq<char>, live: Seq<char>) -> bool {
    match (canonical_table(desired), canonical_table(live)) {
        (Some(d), Some(l)) => {
            &&& d.name == l.name
            &&& d.schema_mode is Some ==> d.schema_mode == l.schema_mode
            &&& d.table_type is Some ==> d.table_type == l.table_type
            &&& d.permissions is Some ==> d.permissions == l.permissions
        },
        _ => trim(desired) == trim(live),
    }
}

fn opt_eq(a: &Option<String>, b: &Option<String>) -> (r: bool)
    ensures
        r == (opt_view(*a) == opt_view(*b)),
{
    match (a, b) {
        (Some(x), Some(y)) => *x == *y,
        (None, None) => true,
        _ => false,
    }
}

fn tables_equivalent_chars(desired: &[char], live: &[char]) -> (r: bool)
    ensures
        r == tables_equivalent(desired@, live@),
{
    match (parse_canonical_table_chars(desired), parse_canonical_table_chars(live)) {
        (Some(d), Some(l)) => {
            if !(d.name == l.name) {
                return false;
            }
            if d.schema_mode.is_some() && !opt_eq(&d.schema_mode, &l.schema_mode) {
                return false;
            }
            if d.table_type.is_some() && !opt_eq(&d.table_type, &l.table_type) {
                return false;
            }
            if d.permissions.is_some() && !opt_eq(&d.permissions, &l.permissions) {
                return false;
            }
            true
        },
        _ => eq_chars(trim_chars(desired).as_slice(), trim_chars(live).as_slice()),
    }
}

/// Whether a live table definition satisfies a desired one.
pub fn table_definitions_equivalent(desired: &str, live: &str) -> (r: bool)
    ensures
        r == tables_equivalent(desired@, live@),
{
    tables_equivalent_chars(chars_of(desired).as_slice(), chars_of(live).as_slice())
}

/// The clauses of a field definition, with `PERMISSIONS FULL` added when no
/// word is `PERMISSIONS` (up to ASCII case).
pub open spec fn with_default_permissions(given: Seq<Seq<char>>) -> Seq<Seq<char>> {
    if exists|k: int| 0 <= k < given.len() && eq_ignore_case(#[trigger] given[k], "PERMISSIONS"@) {
        given
    } else {
        given + seq!["PERMISSIONS"@, "FULL"@]
    }
}

pub open spec fn field_text(field: Seq<char>, table: Seq<char>, body: Seq<char>) -> Seq<char> {
    if body.len() == 0 {
        "DEFINE FIELD "@ + field + " ON "@ + table
    } else {
        "DEFINE FIELD "@ + field + " ON "@ + table + " "@ + body
    }
}

/// The canonical form of a `DEFINE FIELD` statement, if it is one:
/// `DEFINE FIELD <field> ON <table> <clauses>` with lowercase names, no
/// OVERWRITE or TABLE keyword, and `PERMISSIONS FULL` added when the
/// definition states no permissions.
pub open spec fn canonical_field(definition: Seq<char>) -> Option<Seq<char>> {
    let t = definition_words(definition);
    if t.len() < 5 || !eq_ignore_case(t[0], "DEFINE"@) || !eq_ignore_case(t[1], "FIELD"@) {
        None
    } else {
        let i: int = if eq_ignore_case(t[2], "OVERWRITE"@) {
            3
        } else {
            2
        };
        let field = lower_of(trim_end_char(t[i], ';'));
        if !eq_ignore_case(t[i + 1], "ON"@) {
            None
        } else {
            let j: int = if i + 2 < t.len() && eq_ignore_case(t[i + 2], "TABLE"@) {
                i + 3
            } else {
                i + 2
            };
            if j >= t.len() {
                None
            } else {
                let table = lower_of(trim_end_char(t[j], ';'));
                let given = t.skip(j + 1).map_values(|w: Seq<char>| trim_end_char(w, ';'));
                Some(field_text(field, table, join(with_default_permissions(given), " "@)))
            }
        }
    }
}

fn parse_canonical_field_chars(definition: &[char]) -> (r: Option<Vec<char>>)
    ensures
        match canonical_field(definition@) {
            Some(c) => r is Some && r->0@ == c,
            None => r is None,
        },
{
    let t = definition_words_exec(definition);
    let ghost tw = seqs_of(t@);
    if t.len() < 5 {
        assert(canonical_field(definition@) is None);
        return None;
    }
    assert(tw[0] == t@[0]@ && tw[1] == t@[1]@ && tw[2] == t@[2]@ && tw[3] == t@[3]@);
    if !eq_ignore_case_chars(t[0].as_slice(), chars_of("DEFINE").as_slice())
        || !eq_ignore_case_chars(t[1].as_slice(), chars_of("FIELD").as_slice()) {
        assert(canonical_field(definition@) is None);
        return None;
    }
    let i: usize = if eq_ignore_case_chars(t[2].as_slice(), chars_of("OVERWRITE").as_slice()) {
        3
    } else {
        2
    };
    assert(tw[i + 1] == t@[i + 1]@);
    let field = lower_chars(trim_end_char_chars(t[i].as_slice(), ';').as_slice());
    if !eq_ignore_case_chars(t[i + 1].as_slice(), chars_of("ON").as_slice()) {
        assert(canonical_field(definition@) is None);
        return None;
    }
    assert(i + 2 < t@.len() ==> tw[i + 2] == t@[i + 2]@);
    let j: usize = if i + 2 < t.len() && eq_ignore_case_chars(
        t[i + 2].as_slice(),
        chars_of("TABLE").as_slice(),
    ) {
        i + 3
    } else {
        i + 2
    };
    if j >= t.len() {
        assert(canonical_field(definition@) is None);
        return None;
    }
    assert(tw[j as int] == t@[j as int]@);
    let table = lower_chars(trim_end_char_chars(t[j].as_slice(), ';').as_slice());
    let ghost given = tw.skip(j + 1).map_values(|w: Seq<char>| trim_end_char(w, ';'));
    let mut body: Vec<Vec<char>> = Vec::new();
    let mut has_permissions = false;
    let perm_kw = chars_of("PERMISSIONS");
    let mut k = j + 1;
    while k < t.len()
        invariant
            tw == seqs_of(t@),
            j + 1 <= k <= t@.len(),
            perm_kw@ == "PERMISSIONS"@,
            given == tw.skip(j + 1).map_values(|w: Seq<char>| trim_end_char(w, ';')),
            seqs_of(body@) == given.take(k - (j + 1)),
            has_permissions == exists|m: int|
                0 <= m < k - (j + 1) && eq_ignore_case(#[trigger] given[m], "PERMISSIONS"@),
        decreases t@.len() - k,
    {
        assert(tw[k as int] == t@[k as int]@);
        assert(given[k - (j + 1)] == trim_end_char(t@[k as int]@, ';'));
        let w = trim_end_char_chars(t[k].as_slice(), ';');
        if eq_ignore_case_chars(w.as_slice(), perm_kw.as_slice()) {
            has_permissions = true;
        }
        let ghost b0 = body@;
        let ghost m: int = k - (j + 1);
        body.push(w);
        assert(seqs_of(body@) =~= seqs_of(b0).push(given[m]));
        assert(given.take(m + 1) =~= given.take(m).push(given[m]));
        k = k + 1;
    }
    assert(given.take(k - (j + 1)) =~= given);
    assert(given.len() == k - (j + 1));
    let ghost body_words = with_default_permissions(given);
    if !has_permissions {
        body.push(perm_kw);
        body.push(chars_of("FULL"));
        assert(seqs_of(body@) =~= given + seq!["PERMISSIONS"@, "FULL"@]);
    }
    assert(seqs_of(body@) == body_words);
    let b = join_chars(&body, chars_of(" ").as_slice());
    assert(field@ == lower_of(trim_end_char(tw[i as int], ';')));
    assert(table@ == lower_of(trim_end_char(tw[j as int], ';')));
    let mut r = chars_of("DEFINE FIELD ");
    append_chars(&mut r, field.as_slice());
    append_chars(&mut r, chars_of(" ON ").as_slice());
    append_chars(&mut r, table.as_slice());
    if b.len() > 0 {
        append_chars(&mut r, chars_of(" ").as_slice());
        append_chars(&mut r, b.as_slice());
    }
    assert(r@ == field_text(field@, table@, b@));
    assert(canonical_field(definition@) == Some(r@));
    Some(r)
}

/// The canonical form of a `DEFINE FIELD` statement.
pub fn parse_canonical_field_definition(definition: &str) -> (r: Option<String>)
    ensures
        opt_view(r) == canonical_field(definition@),
{
    match parse_canonical_field_chars(chars_of(definition).as_slice()) {
        Some(c) => Some(string_of(c.as_slice())),
        None => None,
    }
}

/// Whether a live field definition satisfies a desired one: when both parse,
/// their canonical forms are equal up to ASCII case; otherwise the trimmed
/// texts are equal.
pub open spec fn fields_equivalent(desired: Seq<char>, live: Seq<char>) -> bool {
    match (canonical_field(desired), canonical_field(live)) {
        (Some(d), Some(l)) => eq_ignore_case(d, l),
        _ => trim(desired) == trim(live),
    }
}

fn fields_equivalent_chars(desired: &[char], live: &[char]) -> (r: bool)
    ensures
        r == fields_equivalent(desired@, live@),
{
    match (parse_canonical_field_chars(desired), parse_canonical_field_chars(live)) {
        (Some(d), Some(l)) => eq_ignore_case_chars(d.as_slice(), l.as_slice()),
        _ => eq_chars(trim_chars(desired).as_slice(), trim_chars(live).as_slice()),
    }
}

/// Whether a live field definition satisfies a desired one.
pub fn field_definitions_equivalent(desired: &str, live: &str) -> (r: bool)
    ensures
        r == fields_equivalent(desired@, live@),
{
    fields_equivalent_chars(chars_of(desired).as_slice(), chars_of(live).as_slice())
}

// ---------------------------------------------------------------------------
// The order of the parsed objects
// ---------------------------------------------------------------------------

proof fn lemma_objects_map_drop_last(s: Seq<SchemaObjectView>)
    requires
        keys_strictly_sorted(s),
        s.len() > 0,
    ensures
        objects_map(s.drop_last()) == objects_map(s).remove(s.last().key()),
        forall|k: Seq<char>| #[trigger] objects_map(s).contains_key(k) ==> k == s.last().key()
            || lex_lt(k, s.last().key()),
{
    let p = s.drop_last();
    assert(keys_strictly_sorted(p));
    lemma_objects_map(s);
    lemma_objects_map(p);
    assert forall|k: Seq<char>| #[trigger] objects_map(s).contains_key(k) implies k == s.last().key()
        || lex_lt(k, s.last().key()) by {
        let i = choose|i: int| 0 <= i < s.len() && s[i].key() == k;
        if i < s.len() - 1 {
            assert(lex_lt(s[i].key(), s[s.len() - 1].key()));
        }
    }
    assert forall|k: Seq<char>| #[trigger] objects_map(p).contains_key(k) implies k != s.last().key() by {
        let i = choose|i: int| 0 <= i < p.len() && p[i].key() == k;
        assert(lex_lt(s[i].key(), s[s.len() - 1].key()));
        lemma_lex_irreflexive(k);
    }
    assert(objects_map(p) =~= objects_map(s).remove(s.last().key()));
}

/// Two key-ordered lists with one object per key that hold the same objects
/// are the same list.
pub proof fn lemma_key_order_unique(s1: Seq<SchemaObjectView>, s2: Seq<SchemaObjectView>)
    requires
        keys_strictly_sorted(s1),
        keys_strictly_sorted(s2),
        objects_map(s1) == objects_map(s2),
    ensures
        s1 == s2,
    decreases s1.len() + s2.len(),
{
    lemma_objects_map(s1);
    lemma_objects_map(s2);
    if s1.len() == 0 || s2.len() == 0 {
        if s1.len() > 0 {
            assert(objects_map(s1).contains_key(s1[0].key()));
        }
        if s2.len() > 0 {
            assert(objects_map(s2).contains_key(s2[0].key()));
        }
        assert(s1 =~= s2);
    } else {
        let k1 = s1.last().key();
        let k2 = s2.last().key();
        lemma_objects_map_drop_last(s1);
        lemma_objects_map_drop_last(s2);
        assert(objects_map(s1).contains_key(k1));
        assert(objects_map(s2).contains_key(k2));
        if k1 != k2 {
            assert(lex_lt(k1, k2));
            assert(lex_lt(k2, k1));
            lemma_lex_transitive(k1, k2, k1);
            lemma_lex_irreflexive(k1);
        }
        assert(s1.last() == objects_map(s1)[k1]);
        assert(s2.last() == objects_map(s2)[k2]);
        assert(keys_strictly_sorted(s1.drop_last()));
        assert(keys_strictly_sorted(s2.drop_last()));
        lemma_key_order_unique(s1.drop_last(), s2.drop_last());
        assert(s1 =~= s1.drop_last().push(s1.last()));
        assert(s2 =~= s2.drop_last().push(s2.last()));
    }
}

/// The objects of `m` listed in key order.
pub open spec fn key_order(m: Map<Seq<char>, SchemaObjectView>) -> Seq<SchemaObjectView> {
    choose|s: Seq<SchemaObjectView>| keys_strictly_sorted(s) && objects_map(s) == m
}

impl SchemaObjects {
    pub proof fn lemma_ordered(&self)
        requires
            self.wf(),
        ensures
            self.ordered() == key_order(self@),
    {
        let s = self.ordered();
        assert(keys_strictly_sorted(s) && objects_map(s) == self@);
        let c = key_order(self@);
        lemma_key_order_unique(s, c);
    }
}

// ---------------------------------------------------------------------------
// Comparing the desired schema with the live database
// ---------------------------------------------------------------------------

/// A named definition as the live database reports it.
#[derive(Debug, Clone)]
pub struct NamedDefinition {
    pub name: String,
    pub definition: String,
}

pub struct NamedDefinitionView {
    pub name: Seq<char>,
    pub definition: Seq<char>,
}

impl View for NamedDefinition {
    type V = NamedDefinitionView;

    open spec fn view(&self) -> NamedDefinitionView {
        NamedDefinitionView { name: self.name@, definition: self.definition@ }
    }
}

/// A live table with the fields, indexes and events defined on it, each list
/// in the order the database reports them (by name).
#[derive(Debug, Clone)]
pub struct LiveTable {
    pub name: String,
    pub definition: String,
    pub fields: Vec<NamedDefinition>,
    pub indexes: Vec<NamedDefinition>,
    pub events: Vec<NamedDefinition>,
}

pub struct LiveTableView {
    pub name: Seq<char>,
    pub definition: Seq<char>,
    pub fields: Seq<NamedDefinitionView>,
    pub indexes: Seq<NamedDefinitionView>,
    pub events: Seq<NamedDefinitionView>,
}

pub open spec fn defs_view(v: Seq<NamedDefinition>) -> Seq<NamedDefinitionView> {
    v.map_values(|d: NamedDefinition| d@)
}

impl View for LiveTable {
    type V = LiveTableView;

    open spec fn view(&self) -> LiveTableView {
        LiveTableView {
            name: self.name@,
            definition: self.definition@,
            fields: defs_view(self.fields@),
            indexes: defs_view(self.indexes@),
            events: defs_view(self.events@),
        }
    }
}

/// What the live database reports of its schema: its tables, and its scopes
/// and access methods.
#[derive(Debug, Clone)]
pub struct LiveSchema {
    pub tables: Vec<LiveTable>,
    pub scopes: Vec<NamedDefinition>,
    pub accesses: Vec<NamedDefinition>,
}

pub struct LiveSchemaView {
    pub tables: Seq<LiveTableView>,
    pub scopes: Seq<NamedDefinitionView>,
    pub accesses: Seq<NamedDefinitionView>,
}

impl View for LiveSchema {
    type V = LiveSchemaView;

    open spec fn view(&self) -> LiveSchemaView {
        LiveSchemaView {
            tables: self.tables@.map_values(|t: LiveTable| t@),
            scopes: defs_view(self.scopes@),
            accesses: defs_view(self.accesses@),
        }
    }
}

#[derive(Clone, Copy, PartialEq, Eq, Structural)]
pub enum EntryKind {
    Field,
    Index,
    Event,
    Table,
    Access,
}

/// One live object: its kind, catalog key, the statement that removes it,
/// and its live definition.
pub struct LiveEntry {
    pub kind: EntryKind,
    pub key: Seq<char>,
    pub removal: Seq<char>,
    pub live_definition: Seq<char>,
}

pub open spec fn member_key_prefix(kind: EntryKind) -> Seq<char> {
    match kind {
        EntryKind::Field => "field:"@,
        EntryKind::Index => "index:"@,
        _ => "event:"@,
    }
}

pub open spec fn member_removal_prefix(kind: EntryKind) -> Seq<char> {
    match kind {
        EntryKind::Field => "REMOVE FIELD "@,
        EntryKind::Index => "REMOVE INDEX "@,
        _ => "REMOVE EVENT "@,
    }
}

/// The entry of a field, index or event `d` of table `table`.
pub open spec fn member_entry(kind: EntryKind, table: Seq<char>, d: NamedDefinitionView) -> LiveEntry {
    LiveEntry {
        kind,
        key: member_key_prefix(kind) + table + "."@ + d.name,
        removal: member_removal_prefix(kind) + d.name + " ON TABLE "@ + table + ";"@,
        live_definition: d.definition,
    }
}

pub open spec fn member_entries(
    kind: EntryKind,
    table: Seq<char>,
    ds: Seq<NamedDefinitionView>,
) -> Seq<LiveEntry> {
    ds.map_values(|d: NamedDefinitionView| member_entry(kind, table, d))
}

pub open spec fn table_entry(t: LiveTableView) -> LiveEntry {
    LiveEntry {
        kind: EntryKind::Table,
        key: "table:"@ + t.name,
        removal: "REMOVE TABLE "@ + t.name + ";"@,
        live_definition: t.definition,
    }
}

pub open spec fn access_entry(d: NamedDefinitionView) -> LiveEntry {
    LiveEntry {
        kind: EntryKind::Access,
        key: "access:"@ + d.name,
        removal: "REMOVE ACCESS "@ + d.name + " ON DATABASE;"@,
        live_definition: d.definition,
    }
}

/// The entries of one table: its fields, indexes and events, then the table.
pub open spec fn table_entries(t: LiveTableView) -> Seq<LiveEntry> {
    member_entries(EntryKind::Field, t.name, t.fields) + member_entries(
        EntryKind::Index,
        t.name,
        t.indexes,
    ) + member_entries(EntryKind::Event, t.name, t.events) + seq![table_entry(t)]
}

pub open spec fn tables_entries(ts: Seq<LiveTableView>) -> Seq<LiveEntry>
    decreases ts.len(),
{
    if ts.len() == 0 {
        Seq::empty()
    } else {
        tables_entries(ts.drop_last()) + table_entries(ts.last())
    }
}

/// Every live object in the order the comparison visits them: table by
/// table, then the scopes, then the access methods.
pub open spec fn live_entries(l: LiveSchemaView) -> Seq<LiveEntry> {
    tables_entries(l.tables) + (l.scopes + l.accesses).map_values(
        |d: NamedDefinitionView| access_entry(d),
    )
}

/// Whether a live definition already matches a desired one.
pub open spec fn definitions_match(kind: EntryKind, desired: Seq<char>, live: Seq<char>) -> bool {
    match kind {
        EntryKind::Field => fields_equivalent(desired, live),
        EntryKind::Table => tables_equivalent(desired, live),
        _ => trim(desired) == trim(live),
    }
}

/// The statement a live object calls for: its removal when the desired
/// schema lacks it, an overwrite with the desired definition when the two
/// differ, and none when they match.
pub open spec fn entry_statement(
    desired: Map<Seq<char>, SchemaObjectView>,
    e: LiveEntry,
) -> Option<Seq<char>> {
    if !desired.contains_key(e.key) {
        Some(e.removal)
    } else if !definitions_match(e.kind, desired[e.key].definition, e.live_definition) {
        Some(overwrite_of(desired[e.key].definition) + ";"@)
    } else {
        None
    }
}

pub open spec fn entry_statements(
    desired: Map<Seq<char>, SchemaObjectView>,
    es: Seq<LiveEntry>,
) -> Seq<Seq<char>>
    decreases es.len(),
{
    if es.len() == 0 {
        Seq::empty()
    } else {
        match entry_statement(desired, es.last()) {
            Some(st) => entry_statements(desired, es.drop_last()).push(st),
            None => entry_statements(desired, es.drop_last()),
        }
    }
}

pub open spec fn is_live(es: Seq<LiveEntry>, key: Seq<char>) -> bool {
    exists|i: int| 0 <= i < es.len() && #[trigger] es[i].key == key
}

/// The definitions, each ending in `;`, of the objects in `objs` of
/// priority `p` that are not live.
pub open spec fn created_at(objs: Seq<SchemaObjectView>, es: Seq<LiveEntry>, p: u8) -> Seq<
    Seq<char>,
>
    decreases objs.len(),
{
    if objs.len() == 0 {
        Seq::empty()
    } else {
        let o = objs.last();
        if o.object_type.priority() == p && !is_live(es, o.key()) {
            created_at(objs.drop_last(), es, p).push(o.definition + ";"@)
        } else {
            created_at(objs.drop_last(), es, p)
        }
    }
}

/// The definitions of the desired objects that are not live: tables first,
/// then fields, indexes, events and access methods, each group in key order.
pub open spec fn created(objs: Seq<SchemaObjectView>, es: Seq<LiveEntry>) -> Seq<Seq<char>> {
    created_at(objs, es, 0) + created_at(objs, es, 1) + created_at(objs, es, 2) + created_at(
        objs,
        es,
        3,
    ) + created_at(objs, es, 4)
}

/// The statements that bring the live database to the desired schema text.
pub open spec fn diff_statements(desired_text: Seq<char>, live: LiveSchemaView) -> Seq<Seq<char>> {
    let desired = objects_of(split_statements(desired_text));
    let es = live_entries(live);
    entry_statements(desired, es) + created(key_order(desired), es)
}

/// Whether the change removes something: some live object is missing from
/// the desired schema.
pub open spec fn diff_is_destructive(desired_text: Seq<char>, live: LiveSchemaView) -> bool {
    let desired = objects_of(split_statements(desired_text));
    let es = live_entries(live);
    exists|i: int| 0 <= i < es.len() && !desired.contains_key(#[trigger] es[i].key)
}

pub struct LiveEntryExec {
    pub kind: EntryKind,
    pub key: Vec<char>,
    pub removal: Vec<char>,
    pub live_definition: Vec<char>,
}

impl View for LiveEntryExec {
    type V = LiveEntry;

    open spec fn view(&self) -> LiveEntry {
        LiveEntry {
            kind: self.kind,
            key: self.key@,
            removal: self.removal@,
            live_definition: self.live_definition@,
        }
    }
}

pub open spec fn entries_view(v: Seq<LiveEntryExec>) -> Seq<LiveEntry> {
    v.map_values(|e: LiveEntryExec| e@)
}

fn push_entry(entries: &mut Vec<LiveEntryExec>, e: LiveEntryExec)
    ensures
        entries_view(final(entries)@) == entries_view(old(entries)@).push(e@),
{
    entries.push(e);
    assert(entries_view(entries@) =~= entries_view(old(entries)@).push(e@));
}

fn push_member_entries(
    entries: &mut Vec<LiveEntryExec>,
    kind: EntryKind,
    table: &[char],
    defs: &Vec<NamedDefinition>,
)
    requires
        kind == EntryKind::Field || kind == EntryKind::Index || kind == EntryKind::Event,
    ensures
        entries_view(final(entries)@) == entries_view(old(entries)@) + member_entries(
            kind,
            table@,
            defs_view(defs@),
        ),
{
    let ghost e0 = entries_view(entries@);
    let key_prefix = match kind {
        EntryKind::Field => chars_of("field:"),
        EntryKind::Index => chars_of("index:"),
        _ => chars_of("event:"),
    };
    let removal_prefix = match kind {
        EntryKind::Field => chars_of("REMOVE FIELD "),
        EntryKind::Index => chars_of("REMOVE INDEX "),
        _ => chars_of("REMOVE EVENT "),
    };
    for i in 0..defs.len()
        invariant
            key_prefix@ == member_key_prefix(kind),
            removal_prefix@ == member_removal_prefix(kind),
            entries_view(entries@) == e0 + member_entries(kind, table@, defs_view(defs@).take(i as int)),
    {
        let name = chars_of(defs[i].name.as_str());
        let mut key = concat3(key_prefix.as_slice(), table, chars_of(".").as_slice());
        append_chars(&mut key, name.as_slice());
        let mut removal = concat3(removal_prefix.as_slice(), name.as_slice(), chars_of(" ON TABLE ").as_slice());
        append_chars(&mut removal, table);
        append_chars(&mut removal, chars_of(";").as_slice());
        let e = LiveEntryExec {
            kind,
            key,
            removal,
            live_definition: chars_of(defs[i].definition.as_str()),
        };
        assert(e@ == member_entry(kind, table@, defs_view(defs@)[i as int]));
        push_entry(entries, e);
        assert(member_entries(kind, table@, defs_view(defs@).take(i + 1)) =~= member_entries(
            kind,
            table@,
            defs_view(defs@).take(i as int),
        ).push(member_entry(kind, table@, defs_view(defs@)[i as int])));
    }
    assert(defs_view(defs@).take(defs@.len() as int) =~= defs_view(defs@));
}

fn push_access_entries(entries: &mut Vec<LiveEntryExec>, defs: &Vec<NamedDefinition>)
    ensures
        entries_view(final(entries)@) == entries_view(old(entries)@) + defs_view(defs@).map_values(
            |d: NamedDefinitionView| access_entry(d),
        ),
{
    let ghost e0 = entries_view(entries@);
    for i in 0..defs.len()
        invariant
            entries_view(entries@) == e0 + defs_view(defs@).take(i as int).map_values(
                |d: NamedDefinitionView| access_entry(d),
            ),
    {
        let name = chars_of(defs[i].name.as_str());
        let key = concat3(chars_of("access:").as_slice(), &[], name.as_slice());
        let removal = concat3(chars_of("REMOVE ACCESS ").as_slice(), name.as_slice(), chars_of(" ON DATABASE;").as_slice());
        let e = LiveEntryExec {
            kind: EntryKind::Access,
            key,
            removal,
            live_definition: chars_of(defs[i].definition.as_str()),
        };
        assert(e@ == access_entry(defs_view(defs@)[i as int]));
        push_entry(entries, e);
        assert(defs_view(defs@).take(i + 1).map_values(|d: NamedDefinitionView| access_entry(d))
            =~= defs_view(defs@).take(i as int).map_values(
            |d: NamedDefinitionView| access_entry(d),
        ).push(access_entry(defs_view(defs@)[i as int])));
    }
    assert(defs_view(defs@).take(defs@.len() as int) =~= defs_view(defs@));
}

/// Lists every live object in the order the comparison visits them.
fn collect_live_entries(live: &LiveSchema) -> (r: Vec<LiveEntryExec>)
    ensures
        entries_view(r@) == live_entries(live@),
{
    let mut entries: Vec<LiveEntryExec> = Vec::new();
    let ghost tables = live@.tables;
    assert(entries_view(entries@) =~= Seq::<LiveEntry>::empty());
    for ti in 0..live.tables.len()
        invariant
            tables == live@.tables,
            entries_view(entries@) == tables_entries(tables.take(ti as int)),
    {
        let t = &live.tables[ti];
        assert(tables[ti as int] == t@);
        let name = chars_of(t.name.as_str());
        push_member_entries(&mut entries, EntryKind::Field, name.as_slice(), &t.fields);
        push_member_entries(&mut entries, EntryKind::Index, name.as_slice(), &t.indexes);
        push_member_entries(&mut entries, EntryKind::Event, name.as_slice(), &t.events);
        let key = concat3(chars_of("table:").as_slice(), &[], name.as_slice());
        let removal = concat3(chars_of("REMOVE TABLE ").as_slice(), name.as_slice(), chars_of(";").as_slice());
        let e = LiveEntryExec {
            kind: EntryKind::Table,
            key,
            removal,
            live_definition: chars_of(t.definition.as_str()),
        };
        assert(e@ == table_entry(t@));
        push_entry(&mut entries, e);
        assert(tables.take(ti + 1).drop_last() =~= tables.take(ti as int));
        assert(tables_entries(tables.take(ti + 1)) == tables_entries(tables.take(ti as int))
            + table_entries(t@));
        assert(entries_view(entries@) =~= tables_entries(tables.take(ti + 1)));
    }
    assert(tables.take(live.tables@.len() as int) =~= tables);
    let ghost before = entries_view(entries@);
    push_access_entries(&mut entries, &live.scopes);
    push_access_entries(&mut entries, &live.accesses);
    assert(entries_view(entries@) =~= live_entries(live@));
    entries
}

fn definitions_match_exec(kind: EntryKind, desired: &[char], live: &[char]) -> (r: bool)
    ensures
        r == definitions_match(kind, desired@, live@),
{
    match kind {
        EntryKind::Field => fields_equivalent_chars(desired, live),
        EntryKind::Table => tables_equivalent_chars(desired, live),
        _ => eq_chars(trim_chars(desired).as_slice(), trim_chars(live).as_slice()),
    }
}

fn entry_statement_exec(desired: &SchemaObjects, e: &LiveEntryExec) -> (r: Option<Vec<char>>)
    requires
        desired.wf(),
    ensures
        match entry_statement(desired@, e@) {
            Some(st) => r is Some && r->0@ == st,
            None => r is None,
        },
{
    match desired.get_chars(e.key.as_slice()) {
        None => Some(clone_chars(&e.removal)),
        Some(obj) => {
            let d = chars_of(obj.definition.as_str());
            if !definitions_match_exec(e.kind, d.as_slice(), e.live_definition.as_slice()) {
                let mut st = make_overwrite_chars(d.as_slice());
                st.push(';');
                proof {
                    reveal_strlit(";");
                }
                assert(st@ =~= overwrite_of(d@) + ";"@);
                Some(st)
            } else {
                None
            }
        },
    }
}

fn is_live_exec(entries: &Vec<LiveEntryExec>, key: &[char]) -> (r: bool)
    ensures
        r == is_live(entries_view(entries@), key@),
{
    for i in 0..entries.len()
        invariant
            forall|j: int| 0 <= j < i ==> #[trigger] entries_view(entries@)[j].key != key@,
    {
        if eq_chars(entries[i].key.as_slice(), key) {
            assert(entries_view(entries@)[i as int].key == key@);
            return true;
        }
    }
    false
}

fn push_created(
    out: &mut Vec<Vec<char>>,
    objs: &Vec<SchemaObject>,
    entries: &Vec<LiveEntryExec>,
    p: u8,
)
    ensures
        seqs_of(final(out)@) == seqs_of(old(out)@) + created_at(
            objs@.map_values(|o: SchemaObject| o@),
            entries_view(entries@),
            p,
        ),
{
    let ghost ov = objs@.map_values(|o: SchemaObject| o@);
    let ghost o0 = seqs_of(out@);
    for i in 0..objs.len()
        invariant
            ov == objs@.map_values(|o: SchemaObject| o@),
            seqs_of(out@) == o0 + created_at(ov.take(i as int), entries_view(entries@), p),
    {
        let o = &objs[i];
        assert(ov[i as int] == o@);
        assert(ov.take(i + 1).drop_last() =~= ov.take(i as int));
        let key = o.key_chars();
        if o.object_type.priority() == p && !is_live_exec(entries, key.as_slice()) {
            let mut st = chars_of(o.definition.as_str());
            st.push(';');
            proof {
                reveal_strlit(";");
            }
            assert(st@ =~= o@.definition + ";"@);
            let ghost before = out@;
            out.push(st);
            assert(seqs_of(out@) =~= seqs_of(before).push(st@));
        }
    }
    assert(ov.take(objs@.len() as int) =~= ov);
}

/// Compares the desired schema text with what a live database reports and
/// returns the statements that bring the database to the desired schema,
/// with whether any of them removes something.
///
/// Live objects are visited table by table (fields, indexes, events, then
/// the table), then scopes and access methods: an object missing from the
/// desired schema is removed, one whose definition differs is overwritten
/// with the desired definition. Then every desired object that is not live
/// is created, tables first, then fields, indexes, events and access
/// methods.
pub fn compute_diff(desired_schema_text: &str, live: &LiveSchema) -> (r: (Vec<String>, bool))
    ensures
        r.0@.map_values(|s: String| s@) == diff_statements(desired_schema_text@, live@),
        r.1 == diff_is_destructive(desired_schema_text@, live@),
{
    let desired = parse_schema(desired_schema_text);
    let ghost dm = desired@;
    let entries = collect_live_entries(live);
    let ghost es = entries_view(entries@);
    let mut out: Vec<Vec<char>> = Vec::new();
    let mut destructive = false;
    assert(seqs_of(out@) =~= Seq::<Seq<char>>::empty());
    for i in 0..entries.len()
        invariant
            desired.wf(),
            dm == desired@,
            es == entries_view(entries@),
            seqs_of(out@) == entry_statements(dm, es.take(i as int)),
            destructive == exists|j: int| 0 <= j < i && !dm.contains_key(#[trigger] es[j].key),
    {
        assert(es[i as int] == entries@[i as int]@);
        assert(es.take(i + 1).drop_last() =~= es.take(i as int));
        assert(es.take(i + 1).last() == es[i as int]);
        match entry_statement_exec(&desired, &entries[i]) {
            Some(st) => {
                let ghost before = out@;
                out.push(st);
                assert(seqs_of(out@) =~= seqs_of(before).push(st@));
            },
            None => {},
        }
        if !desired.contains_key_chars(entries[i].key.as_slice()) {
            destructive = true;
        }
    }
    assert(es.take(entries@.len() as int) =~= es);
    let objs = desired.values();
    proof {
        desired.lemma_ordered();
    }
    let ghost before_created = seqs_of(out@);
    push_created(&mut out, objs, &entries, 0);
    push_created(&mut out, objs, &entries, 1);
    push_created(&mut out, objs, &entries, 2);
    push_created(&mut out, objs, &entries, 3);
    push_created(&mut out, objs, &entries, 4);
    assert(seqs_of(out@) =~= diff_statements(desired_schema_text@, live@));
    let mut result: Vec<String> = Vec::new();
    for i in 0..out.len()
        invariant
            result@.map_values(|s: String| s@) == seqs_of(out@).take(i as int),
    {
        assert(seqs_of(out@)[i as int] == out@[i as int]@);
        let ghost before = result@;
        let st = string_of(out[i].as_slice());
        result.push(st);
        assert(result@.map_values(|s: String| s@) =~= before.map_values(|s: String| s@).push(st@));
        assert(seqs_of(out@).take(i + 1) =~= seqs_of(out@).take(i as int).push(st@));
    }
    assert(seqs_of(out@).take(out@.len() as int) =~= seqs_of(out@));
    (result, destructive)
}

// ---------------------------------------------------------------------------
// Laws
// ---------------------------------------------------------------------------

/// Every definition matches itself, whatever its kind.
pub proof fn law_definition_matches_itself(kind: EntryKind, definition: Seq<char>)
    ensures
        definitions_match(kind, definition, definition),
{
}

/// Every object the parser returns is stored under its own key, and its
/// definition is one of the statements of the text.
pub proof fn law_parsed_objects_keyed_by_key(stmts: Seq<Seq<char>>, k: Seq<char>)
    requires
        objects_of(stmts).contains_key(k),
    ensures
        objects_of(stmts)[k].key() == k,
        exists|i: int| 0 <= i < stmts.len() && stmts[i] == objects_of(stmts)[k].definition,
    decreases stmts.len(),
{
    let p = stmts.drop_last();
    match classify_statement(stmts.last()) {
        Some(o) => {
            if k != o.key() {
                law_parsed_objects_keyed_by_key(p, k);
                let i = choose|i: int| 0 <= i < p.len() && p[i] == objects_of(p)[k].definition;
                assert(stmts[i] == p[i]);
            } else {
                assert(stmts[stmts.len() - 1] == o.definition);
            }
        },
        None => {
            law_parsed_objects_keyed_by_key(p, k);
            let i = choose|i: int| 0 <= i < p.len() && p[i] == objects_of(p)[k].definition;
            assert(stmts[i] == p[i]);
        },
    }
}

/// Live objects whose definitions are the desired definitions call for no
/// statement.
pub proof fn lemma_in_sync_entries(desired: Map<Seq<char>, SchemaObjectView>, es: Seq<LiveEntry>)
    requires
        forall|i: int|
            0 <= i < es.len() ==> desired.contains_key(#[trigger] es[i].key)
                && desired[es[i].key].definition == es[i].live_definition,
    ensures
        entry_statements(desired, es) == Seq::<Seq<char>>::empty(),
    decreases es.len(),
{
    if es.len() > 0 {
        let p = es.drop_last();
        assert forall|i: int| 0 <= i < p.len() implies desired.contains_key(#[trigger] p[i].key)
            && desired[p[i].key].definition == p[i].live_definition by {
            assert(p[i] == es[i]);
        }
        lemma_in_sync_entries(desired, p);
        let e = es[es.len() - 1];
        law_definition_matches_itself(e.kind, e.live_definition);
    }
}

proof fn lemma_nothing_created_at(objs: Seq<SchemaObjectView>, es: Seq<LiveEntry>, p: u8)
    requires
        forall|i: int| 0 <= i < objs.len() ==> is_live(es, #[trigger] objs[i].key()),
    ensures
        created_at(objs, es, p) == Seq::<Seq<char>>::empty(),
    decreases objs.len(),
{
    if objs.len() > 0 {
        let q = objs.drop_last();
        assert forall|i: int| 0 <= i < q.len() implies is_live(es, #[trigger] q[i].key()) by {
            assert(q[i] == objs[i]);
        }
        lemma_nothing_created_at(q, es, p);
        assert(is_live(es, objs[objs.len() - 1].key()));
    }
}

/// A live database that already holds the desired schema, every live object
/// with exactly its desired definition and every desired object live, needs
/// no statement, and the (empty) change is not destructive.
pub proof fn law_in_sync_schema_needs_no_change(desired_text: Seq<char>, live: LiveSchemaView)
    requires
        forall|i: int|
            0 <= i < live_entries(live).len() ==> {
                let e = #[trigger] live_entries(live)[i];
                let desired = objects_of(split_statements(desired_text));
                desired.contains_key(e.key) && desired[e.key].definition == e.live_definition
            },
        forall|k: Seq<char>|
            #[trigger] objects_of(split_statements(desired_text)).contains_key(k) ==> is_live(
                live_entries(live),
                k,
            ),
    ensures
        diff_statements(desired_text, live) == Seq::<Seq<char>>::empty(),
        !diff_is_destructive(desired_text, live),
{
    let desired = objects_of(split_statements(desired_text));
    let es = live_entries(live);
    lemma_in_sync_entries(desired, es);
    let parsed = parse_schema_ghost(desired_text);
    let objs = key_order(desired);
    assert forall|i: int| 0 <= i < objs.len() implies is_live(es, #[trigger] objs[i].key()) by {
        lemma_objects_map(objs);
        assert(desired.contains_key(objs[i].key()));
    }
    lemma_nothing_created_at(objs, es, 0);
    lemma_nothing_created_at(objs, es, 1);
    lemma_nothing_created_at(objs, es, 2);
    lemma_nothing_created_at(objs, es, 3);
    lemma_nothing_created_at(objs, es, 4);
    assert(diff_statements(desired_text, live) =~= Seq::<Seq<char>>::empty());
}

/// The key order of the parsed objects exists: it is a key-ordered list
/// holding exactly them.
proof fn parse_schema_ghost(text: Seq<char>) -> (s: Seq<SchemaObjectView>)
    ensures
        keys_strictly_sorted(s),
        objects_map(s) == objects_of(split_statements(text)),
        key_order(objects_of(split_statements(text))) == s,
{
    let stmts = split_statements(text);
    let s = ordered_objects_of(stmts);
    let m = objects_of(stmts);
    let c = key_order(m);
    lemma_key_order_unique(s, c);
    s
}

/// A key-ordered list of the objects that a list of statements defines.
proof fn ordered_objects_of(stmts: Seq<Seq<char>>) -> (s: Seq<SchemaObjectView>)
    ensures
        keys_strictly_sorted(s),
        objects_map(s) == objects_of(stmts),
    decreases stmts.len(),
{
    if stmts.len() == 0 {
        let s = Seq::<SchemaObjectView>::empty();
        assert(objects_map(s) =~= Map::<Seq<char>, SchemaObjectView>::empty());
        s
    } else {
        let s0 = ordered_objects_of(stmts.drop_last());
        match classify_statement(stmts.last()) {
            Some(o) => insert_ordered(s0, o),
            None => s0,
        }
    }
}

/// Inserting into a key-ordered list keeps it key-ordered.
proof fn insert_ordered(s0: Seq<SchemaObjectView>, o: SchemaObjectView) -> (s: Seq<SchemaObjectView>)
    requires
        keys_strictly_sorted(s0),
    ensures
        keys_strictly_sorted(s),
        objects_map(s) == objects_map(s0).insert(o.key(), o),
    decreases s0.len(),
{
    lemma_objects_map(s0);
    if s0.len() == 0 {
        let s = seq![o];
        assert(s.drop_last() =~= s0);
        s
    } else {
        let last = s0.last();
        let p = s0.drop_last();
        assert(keys_strictly_sorted(p));
        lemma_objects_map_drop_last(s0);
        if last.key() == o.key() {
            let s = p.push(o);
            assert(s.drop_last() =~= p);
            assert(keys_strictly_sorted(s)) by {
                assert forall|a: int, b: int| 0 <= a < b < s.len() implies lex_lt(
                    #[trigger] s[a].key(),
                    #[trigger] s[b].key(),
                ) by {
                    assert(lex_lt(s0[a].key(), s0[b].key()));
                }
            }
            assert(objects_map(s) =~= objects_map(s0).insert(o.key(), o));
            s
        } else if lex_lt(last.key(), o.key()) {
            let s = s0.push(o);
            assert(s.drop_last() =~= s0);
            assert(keys_strictly_sorted(s)) by {
                assert forall|a: int, b: int| 0 <= a < b < s.len() implies lex_lt(
                    #[trigger] s[a].key(),
                    #[trigger] s[b].key(),
                ) by {
                    if b == s.len() - 1 && a < s.len() - 2 {
                        assert(lex_lt(s0[a].key(), s0[s0.len() - 1].key()));
                        lemma_lex_transitive(s0[a].key(), last.key(), o.key());
                    } else if b < s.len() - 1 {
                        assert(lex_lt(s0[a].key(), s0[b].key()));
                    }
                }
            }
            s
        } else {
            lemma_lex_total(last.key(), o.key());
            lemma_objects_map(p);
            let q = insert_ordered(p, o);
            let s = q.push(last);
            assert(s.drop_last() =~= q);
            lemma_objects_map(q);
            assert(keys_strictly_sorted(s)) by {
                assert forall|a: int, b: int| 0 <= a < b < s.len() implies lex_lt(
                    #[trigger] s[a].key(),
                    #[trigger] s[b].key(),
                ) by {
                    if b < s.len() - 1 {
                        assert(lex_lt(q[a].key(), q[b].key()));
                    } else {
                        assert(objects_map(q).contains_key(q[a].key()));
                        if q[a].key() != o.key() {
                            assert(objects_map(p).contains_key(q[a].key()));
                            let j = choose|j: int| 0 <= j < p.len() && p[j].key() == q[a].key();
                            assert(lex_lt(s0[j].key(), s0[s0.len() - 1].key()));
                        }
                    }
                }
            }
            assert(!objects_map(q).contains_key(last.key())) by {
                lemma_lex_irreflexive(last.key());
                if objects_map(q).contains_key(last.key()) {
                    if last.key() != o.key() {
                        assert(objects_map(p).contains_key(last.key()));
                    }
                }
            }
            assert(objects_map(s) =~= objects_map(s0).insert(o.key(), o));
            s
        }
    }
}

/// The prefix of an ASCII-uppercased text is the ASCII-uppercased prefix.
proof fn lemma_ascii_upper_prefix(p: Seq<char>, s: Seq<char>)
    requires
        forall|k: int| 0 <= k < p.len() ==> ascii_upper(#[trigger] p[k]) == p[k],
        p.is_prefix_of(s),
    ensures
        p.is_prefix_of(ascii_upper_seq(s)),
{
    assert forall|k: int| 0 <= k < p.len() implies #[trigger] ascii_upper_seq(s)[k] == p[k] by {
        assert(s[k] == p[k]);
    }
}

/// The text `DEFINE <kind> OVERWRITE[ <tail>]` is left unchanged by the
/// rewrite when the kind has no whitespace and the tail starts and ends
/// with non-whitespace.
proof fn lemma_rewritten_is_fixed(kind: Seq<char>, tail: Seq<char>)
    requires
        forall|k: int| 0 <= k < kind.len() ==> !is_ws(#[trigger] kind[k]),
        tail.len() == 0 || (!is_ws(tail[0]) && !is_ws(tail.last())),
    ensures
        ({
            let o = if tail.len() == 0 {
                "DEFINE "@ + kind + " OVERWRITE"@
            } else {
                "DEFINE "@ + kind + " OVERWRITE "@ + tail
            };
            overwrite_of(o) == o
        }),
{
    reveal_strlit("DEFINE ");
    reveal_strlit(" OVERWRITE");
    reveal_strlit(" OVERWRITE ");
    reveal_strlit("OVERWRITE");
    let o = if tail.len() == 0 {
        "DEFINE "@ + kind + " OVERWRITE"@
    } else {
        "DEFINE "@ + kind + " OVERWRITE "@ + tail
    };
    assert(o[0] == 'D');
    assert(!is_ws(o.last()));
    lemma_trim_unchanged(o);
    assert("DEFINE "@.is_prefix_of(o));
    lemma_ascii_upper_prefix("DEFINE "@, o);
    lemma_word_end_at(o, 0, 6);
    let k2: int = 7 + kind.len() as int;
    assert forall|k: int| 7 <= k < k2 implies !is_ws(#[trigger] o[k]) by {
        assert(o[k] == kind[k - 7]);
    }
    assert(o[k2] == ' ');
    lemma_word_end_at(o, 7, k2);
    let orest = o.skip(k2 + 1);
    assert("OVERWRITE"@.is_prefix_of(orest));
    assert(orest[0] == 'O');
    assert(skip_ws(orest, 0) == 0);
    assert(orest.skip(0) =~= orest);
    lemma_ascii_upper_prefix("OVERWRITE"@, orest);
}

/// Rewriting a definition to overwrite is idempotent: a rewritten
/// definition is left as it is.
pub proof fn law_make_overwrite_idempotent(definition: Seq<char>)
    ensures
        overwrite_of(overwrite_of(definition)) == overwrite_of(definition),
{
    let t = trim(definition);
    lemma_trim_idempotent(definition);
    let o = overwrite_of(definition);
    let e1 = word_end(t, 0);
    let e2 = word_end(t, e1 + 1);
    if !"DEFINE "@.is_prefix_of(ascii_upper_seq(t)) || e1 >= t.len() || e2 >= t.len() {
        assert(o == t);
    } else {
        let kind = t.subrange(e1 + 1, e2);
        let rest = trim_start(t.skip(e2 + 1));
        let rest_upper = ascii_upper_seq(rest);
        if "OVERWRITE"@.is_prefix_of(rest_upper) {
            assert(o == t);
        } else {
            lemma_word_end_bounds(t, 0);
            lemma_word_end_bounds(t, e1 + 1);
            assert forall|k: int| 0 <= k < kind.len() implies !is_ws(#[trigger] kind[k]) by {
                assert(kind[k] == t[e1 + 1 + k]);
            }
            let rewritten = if "IF NOT EXISTS"@.is_prefix_of(rest_upper) {
                trim_start(rest.skip(13))
            } else {
                rest
            };
            let r0 = t.skip(e2 + 1);
            lemma_skip_ws_bounds(r0, 0);
            assert(rest == r0.skip(skip_ws(r0, 0)));
            if rewritten.len() > 0 {
                if "IF NOT EXISTS"@.is_prefix_of(rest_upper) {
                    reveal_strlit("IF NOT EXISTS");
                    assert(rest_upper.len() == rest.len());
                    let r13 = rest.skip(13);
                    lemma_skip_ws_bounds(r13, 0);
                    assert(rewritten == r13.skip(skip_ws(r13, 0)));
                    assert(rewritten.last() == r13.last());
                    assert(!is_ws(rewritten[0]));
                } else {
                    assert(!is_ws(rewritten[0]));
                }
                assert(rest.last() == t.last());
                assert(rewritten.last() == t.last());
            }
            lemma_rewritten_is_fixed(kind, rewritten);
        }
    }
}


// ---------------------------------------------------------------------------
// Laws of the comparison of definitions
// ---------------------------------------------------------------------------

/// Two table definitions that both parse are equivalent exactly when they
/// name the same table and every clause the desired one states (schema
/// mode, table type, permissions) has the same value in the live one: a
/// stated clause that differs, or that the live definition lacks, makes
/// them differ, and a clause the desired one omits matches anything.
pub proof fn law_table_clauses_must_agree(desired: Seq<char>, live: Seq<char>)
    requires
        canonical_table(desired) is Some,
        canonical_table(live) is Some,
    ensures
        ({
            let d = canonical_table(desired)->0;
            let l = canonical_table(live)->0;
            &&& d.name != l.name ==> !tables_equivalent(desired, live)
            &&& d.schema_mode is Some && d.schema_mode != l.schema_mode ==> !tables_equivalent(desired, live)
            &&& d.table_type is Some && d.table_type != l.table_type ==> !tables_equivalent(desired, live)
            &&& d.permissions is Some && d.permissions != l.permissions ==> !tables_equivalent(desired, live)
            &&& d.name == l.name && d.schema_mode is None && d.table_type is None && d.permissions is None
                ==> tables_equivalent(desired, live)
        }),
{
}

/// A statement the diff calls for at one live entry is among the
/// statements of the diff.
proof fn lemma_entry_statement_listed(desired: Map<Seq<char>, SchemaObjectView>, es: Seq<LiveEntry>, i: int)
    requires
        0 <= i < es.len(),
        entry_statement(desired, es[i]) is Some,
    ensures
        entry_statements(desired, es).contains(entry_statement(desired, es[i])->0),
    decreases es.len(),
{
    let st = entry_statement(desired, es[i])->0;
    if i == es.len() - 1 {
        let r = entry_statements(desired, es);
        assert(r[r.len() - 1] == st);
    } else {
        assert(es.drop_last()[i] == es[i]);
        lemma_entry_statement_listed(desired, es.drop_last(), i);
        let p = entry_statements(desired, es.drop_last());
        let k = choose|k: int| 0 <= k < p.len() && p[k] == st;
        let r = entry_statements(desired, es);
        assert(r[k] == st);
    }
}

/// An index, event or access that is live and desired with a different
/// text (leading and trailing whitespace aside) is overwritten with its
/// desired definition; with the same text it calls for no statement.
pub proof fn law_changed_definitions_are_overwritten(desired_text: Seq<char>, live: LiveSchemaView, i: int)
    requires
        0 <= i < live_entries(live).len(),
        live_entries(live)[i].kind == EntryKind::Index || live_entries(live)[i].kind == EntryKind::Event
            || live_entries(live)[i].kind == EntryKind::Access,
        objects_of(split_statements(desired_text)).contains_key(live_entries(live)[i].key),
    ensures
        ({
            let e = live_entries(live)[i];
            let d = objects_of(split_statements(desired_text))[e.key].definition;
            &&& trim(d) != trim(e.live_definition) ==> diff_statements(desired_text, live).contains(
                overwrite_of(d) + ";"@,
            )
            &&& trim(d) == trim(e.live_definition) ==> entry_statement(
                objects_of(split_statements(desired_text)),
                e,
            ) is None
        }),
{
    let desired = objects_of(split_statements(desired_text));
    let es = live_entries(live);
    let e = es[i];
    let d = desired[e.key].definition;
    if trim(d) != trim(e.live_definition) {
        lemma_entry_statement_listed(desired, es, i);
        let p = entry_statements(desired, es);
        let st = overwrite_of(d) + ";"@;
        let k = choose|k: int| 0 <= k < p.len() && p[k] == st;
        let r = diff_statements(desired_text, live);
        assert(r[k] == st);
    }
}


// ---------------------------------------------------------------------------
// Laws of the statement splitter
// ---------------------------------------------------------------------------

/// A character with no meaning to the splitter: no `;`, no quote, and none
/// of the characters that start a comment.
pub open spec fn plain_char(c: char) -> bool {
    c != ';' && c != '"' && c != '\'' && c != '#' && c != '-' && c != '/'
}

pub open spec fn plain_text(s: Seq<char>) -> bool {
    forall|k: int| 0 <= k < s.len() ==> plain_char(#[trigger] s[k])
}

/// Reading plain characters only extends the statement being read, up to
/// the end of the text.
proof fn lemma_scan_plain_to_end(s: Seq<char>, i: int, st: ScanState)
    requires
        0 <= i <= s.len(),
        !st.in_double && !st.in_single && !st.in_comment,
        forall|k: int| i <= k < s.len() ==> plain_char(#[trigger] s[k]),
    ensures
        scan(s, i, st) == close_statement(st.statements, st.current + s.subrange(i, s.len() as int)),
    decreases s.len() - i,
{
    if i == s.len() {
        assert(st.current + s.subrange(i, s.len() as int) =~= st.current);
    } else {
        let c = s[i];
        assert(plain_char(c));
        let next = ScanState {
            in_double: false,
            in_single: false,
            in_comment: false,
            current: st.current.push(c),
            statements: st.statements,
        };
        lemma_scan_plain_to_end(s, i + 1, next);
        assert(st.current.push(c) + s.subrange(i + 1, s.len() as int) =~= st.current + s.subrange(
            i,
            s.len() as int,
        ));
    }
}

/// Reading plain characters up to a `;` completes the statement read so
/// far.
proof fn lemma_scan_plain_to_semicolon(s: Seq<char>, i: int, j: int, st: ScanState)
    requires
        0 <= i <= j < s.len(),
        s[j] == ';',
        !st.in_double && !st.in_single && !st.in_comment,
        forall|k: int| i <= k < j ==> plain_char(#[trigger] s[k]),
    ensures
        scan(s, i, st) == scan(
            s,
            j + 1,
            ScanState {
                in_double: false,
                in_single: false,
                in_comment: false,
                current: Seq::empty(),
                statements: close_statement(st.statements, st.current + s.subrange(i, j)),
            },
        ),
    decreases j - i,
{
    if i == j {
        assert(st.current + s.subrange(i, j) =~= st.current);
    } else {
        let c = s[i];
        assert(plain_char(c));
        let next = ScanState {
            in_double: false,
            in_single: false,
            in_comment: false,
            current: st.current.push(c),
            statements: st.statements,
        };
        lemma_scan_plain_to_semicolon(s, i + 1, j, next);
        assert(st.current.push(c) + s.subrange(i + 1, j) =~= st.current + s.subrange(i, j));
    }
}

/// The text after the last `;` is a statement of its own, with or without
/// a `;` after it: a plain text that is not blank is one statement, its
/// trim, and two plain texts joined by `;` are two statements, whether or
/// not a `;` ends the second.
pub proof fn law_last_statement_needs_no_semicolon(a: Seq<char>, b: Seq<char>)
    requires
        plain_text(a),
        plain_text(b),
        trim(a).len() > 0,
        trim(b).len() > 0,
    ensures
        split_statements(b) == seq![trim(b)],
        split_statements(a + ";"@ + b) == seq![trim(a), trim(b)],
        split_statements(a + ";"@ + b + ";"@) == seq![trim(a), trim(b)],
{
    reveal_strlit(";");
    let init = ScanState {
        in_double: false,
        in_single: false,
        in_comment: false,
        current: Seq::empty(),
        statements: Seq::empty(),
    };
    lemma_scan_plain_to_end(b, 0, init);
    assert(Seq::<char>::empty() + b.subrange(0, b.len() as int) =~= b);
    assert(Seq::<Seq<char>>::empty().push(trim(b)) =~= seq![trim(b)]);

    let s = a + ";"@ + b;
    let n = a.len() as int;
    assert(s[n] == ';');
    assert forall|k: int| 0 <= k < n implies plain_char(#[trigger] s[k]) by {
        assert(s[k] == a[k]);
    }
    lemma_scan_plain_to_semicolon(s, 0, n, init);
    assert(Seq::<char>::empty() + s.subrange(0, n) =~= a);
    let mid = ScanState {
        in_double: false,
        in_single: false,
        in_comment: false,
        current: Seq::empty(),
        statements: seq![trim(a)],
    };
    assert(close_statement(Seq::empty(), a) =~= seq![trim(a)]);
    assert forall|k: int| n + 1 <= k < s.len() implies plain_char(#[trigger] s[k]) by {
        assert(s[k] == b[k - n - 1]);
    }
    lemma_scan_plain_to_end(s, n + 1, mid);
    assert(Seq::<char>::empty() + s.subrange(n + 1, s.len() as int) =~= b);
    assert(seq![trim(a)].push(trim(b)) =~= seq![trim(a), trim(b)]);

    let t = a + ";"@ + b + ";"@;
    let m = t.len() - 1;
    assert(t[n] == ';');
    assert(t[m] == ';');
    assert forall|k: int| 0 <= k < n implies plain_char(#[trigger] t[k]) by {
        assert(t[k] == a[k]);
    }
    lemma_scan_plain_to_semicolon(t, 0, n, init);
    assert(Seq::<char>::empty() + t.subrange(0, n) =~= a);
    assert forall|k: int| n + 1 <= k < m implies plain_char(#[trigger] t[k]) by {
        assert(t[k] == b[k - n - 1]);
    }
    lemma_scan_plain_to_semicolon(t, n + 1, m, mid);
    assert(Seq::<char>::empty() + t.subrange(n + 1, m) =~= b);
    let last = ScanState {
        in_double: false,
        in_single: false,
        in_comment: false,
        current: Seq::empty(),
        statements: seq![trim(a), trim(b)],
    };
    assert(close_statement(seq![trim(a)], b) =~= seq![trim(a), trim(b)]);
    assert(scan(t, m + 1, last) == close_statement(last.statements, last.current));
    assert(trim(Seq::<char>::empty()).len() == 0) by {
        lemma_trim_unchanged(Seq::<char>::empty());
    }
}


// ---------------------------------------------------------------------------
// Laws of the overwrite rewriting
// ---------------------------------------------------------------------------

/// `DEFINE ` and the kind, in a text that starts with them, read as the
/// first two words of the text.
proof fn lemma_define_words(d: Seq<char>, k: Seq<char>)
    requires
        k.len() > 0,
        forall|j: int| 0 <= j < k.len() ==> !is_ws(#[trigger] k[j]),
        d.len() > 7 + k.len(),
        d.subrange(0, 7) == "DEFINE "@,
        d.subrange(7, 7 + k.len() as int) == k,
        d[7 + k.len() as int] == ' ',
    ensures
        word_end(d, 0) == 6,
        word_end(d, 7) == 7 + k.len(),
        "DEFINE "@.is_prefix_of(ascii_upper_seq(d)),
{
    reveal_strlit("DEFINE ");
    assert forall|j: int| 0 <= j < 7 implies d[j] == "DEFINE "@[j] by {
        assert(d.subrange(0, 7)[j] == d[j]);
    }
    assert forall|j: int| 0 <= j < 6 implies !is_ws(#[trigger] d[j]) by {}
    lemma_word_end_at(d, 0, 6);
    assert forall|j: int| 7 <= j < 7 + k.len() implies !is_ws(#[trigger] d[j]) by {
        assert(d.subrange(7, 7 + k.len() as int)[j - 7] == d[j]);
    }
    lemma_word_end_at(d, 7, 7 + k.len() as int);
    let u = ascii_upper_seq(d);
    assert forall|j: int| 0 <= j < 7 implies u[j] == "DEFINE "@[j] by {}
    assert(u.subrange(0, 7) =~= "DEFINE "@);
}

/// A `DEFINE` statement of a kind and a body gets `OVERWRITE` right after
/// the kind: `DEFINE <kind> <rest>` becomes `DEFINE <kind> OVERWRITE
/// <rest>`, and `DEFINE <kind> IF NOT EXISTS <rest>` becomes the same, for
/// every kind.
pub proof fn law_define_gets_overwrite(k: Seq<char>, r: Seq<char>)
    requires
        k.len() > 0,
        forall|j: int| 0 <= j < k.len() ==> !is_ws(#[trigger] k[j]),
        r.len() > 0,
        !is_ws(r[0]),
        !is_ws(r.last()),
        !"OVERWRITE"@.is_prefix_of(ascii_upper_seq(r)),
        !"IF NOT EXISTS"@.is_prefix_of(ascii_upper_seq(r)),
    ensures
        overwrite_of("DEFINE "@ + k + " "@ + r) == "DEFINE "@ + k + " OVERWRITE "@ + r,
        overwrite_of("DEFINE "@ + k + " IF NOT EXISTS "@ + r) == "DEFINE "@ + k + " OVERWRITE "@ + r,
{
    reveal_strlit("DEFINE ");
    reveal_strlit(" ");
    reveal_strlit(" IF NOT EXISTS ");
    reveal_strlit("IF NOT EXISTS");
    reveal_strlit("OVERWRITE");
    let n = k.len() as int;
    // DEFINE <kind> <rest>
    let d = "DEFINE "@ + k + " "@ + r;
    assert(d[0] == 'D');
    assert(d.last() == r.last());
    lemma_trim_unchanged(d);
    assert(d.subrange(0, 7) =~= "DEFINE "@);
    assert(d.subrange(7, 7 + n) =~= k);
    assert(d[7 + n] == ' ');
    lemma_define_words(d, k);
    lemma_trim_unchanged(r);
    assert(d.skip(8 + n) =~= r);
    // DEFINE <kind> IF NOT EXISTS <rest>
    reveal_strlit("IF NOT EXISTS ");
    let rest = "IF NOT EXISTS "@ + r;
    let d2 = "DEFINE "@ + k + " "@ + rest;
    assert(" IF NOT EXISTS "@ =~= " "@ + "IF NOT EXISTS "@);
    assert(d2 =~= "DEFINE "@ + k + " IF NOT EXISTS "@ + r);
    assert(d2[0] == 'D');
    assert(d2.last() == r.last());
    lemma_trim_unchanged(d2);
    assert(d2.subrange(0, 7) =~= "DEFINE "@);
    assert(d2.subrange(7, 7 + n) =~= k);
    assert(d2[7 + n] == ' ');
    lemma_define_words(d2, k);
    assert(d2.skip(8 + n) =~= rest);
    assert(rest[0] == 'I');
    assert(skip_ws(rest, 0) == 0);
    assert(rest.skip(0) =~= rest);
    let up = ascii_upper_seq(rest);
    assert forall|j: int| 0 <= j < 13 implies up[j] == "IF NOT EXISTS"@[j] by {
        assert(rest[j] == "IF NOT EXISTS"@[j]);
    }
    assert(up.subrange(0, 13) =~= "IF NOT EXISTS"@);
    assert(up[0] == 'I');
    assert(!"OVERWRITE"@.is_prefix_of(up));
    let tail = rest.skip(13);
    assert(tail =~= " "@ + r);
    assert(tail[0] == ' ');
    assert(tail[1] == r[0]);
    assert(skip_ws(tail, 1) == 1);
    assert(skip_ws(tail, 0) == 1);
    assert(tail.skip(1) =~= r);
}


// ---------------------------------------------------------------------------
// Laws of removal and creation
// ---------------------------------------------------------------------------

proof fn lemma_concat_contains(a: Seq<Seq<char>>, b: Seq<Seq<char>>, x: Seq<char>)
    requires
        a.contains(x) || b.contains(x),
    ensures
        (a + b).contains(x),
{
    if a.contains(x) {
        let k = choose|k: int| 0 <= k < a.len() && a[k] == x;
        assert((a + b)[k] == x);
    } else {
        let k = choose|k: int| 0 <= k < b.len() && b[k] == x;
        assert((a + b)[a.len() + k] == x);
    }
}

proof fn lemma_created_at_lists(objs: Seq<SchemaObjectView>, es: Seq<LiveEntry>, p: u8, j: int)
    requires
        0 <= j < objs.len(),
        objs[j].object_type.priority() == p,
        !is_live(es, objs[j].key()),
    ensures
        created_at(objs, es, p).contains(objs[j].definition + ";"@),
    decreases objs.len(),
{
    let x = objs[j].definition + ";"@;
    if j == objs.len() - 1 {
        let r = created_at(objs, es, p);
        assert(r[r.len() - 1] == x);
    } else {
        assert(objs.drop_last()[j] == objs[j]);
        lemma_created_at_lists(objs.drop_last(), es, p, j);
        let q = created_at(objs.drop_last(), es, p);
        let k = choose|k: int| 0 <= k < q.len() && q[k] == x;
        assert(created_at(objs, es, p)[k] == x);
    }
}

/// A live object that the desired schema lacks is removed, and its removal
/// makes the change destructive; a desired object that is not live is
/// created with its definition.
pub proof fn law_missing_objects_removed_new_ones_created(desired_text: Seq<char>, live: LiveSchemaView)
    ensures
        forall|i: int|
            0 <= i < live_entries(live).len() && !objects_of(split_statements(desired_text)).contains_key(
                #[trigger] live_entries(live)[i].key,
            ) ==> diff_statements(desired_text, live).contains(live_entries(live)[i].removal)
                && diff_is_destructive(desired_text, live),
        forall|k: Seq<char>|
            #[trigger] objects_of(split_statements(desired_text)).contains_key(k) && !is_live(
                live_entries(live),
                k,
            ) ==> diff_statements(desired_text, live).contains(
                objects_of(split_statements(desired_text))[k].definition + ";"@,
            ),
{
    let desired = objects_of(split_statements(desired_text));
    let es = live_entries(live);
    let ents = entry_statements(desired, es);
    let s = parse_schema_ghost(desired_text);
    let made = created(s, es);
    assert forall|i: int|
        0 <= i < es.len() && !desired.contains_key(#[trigger] es[i].key) implies diff_statements(
        desired_text,
        live,
    ).contains(es[i].removal) && diff_is_destructive(desired_text, live) by {
        lemma_entry_statement_listed(desired, es, i);
        lemma_concat_contains(ents, made, es[i].removal);
    }
    assert forall|k: Seq<char>| #[trigger] desired.contains_key(k) && !is_live(es, k) implies diff_statements(
        desired_text,
        live,
    ).contains(desired[k].definition + ";"@) by {
        lemma_objects_map(s);
        let j = choose|j: int| 0 <= j < s.len() && s[j].key() == k;
        assert(desired[k] == s[j]);
        let p = s[j].object_type.priority();
        let x = s[j].definition + ";"@;
        lemma_created_at_lists(s, es, p, j);
        let c0 = created_at(s, es, 0);
        let c1 = created_at(s, es, 1);
        let c2 = created_at(s, es, 2);
        let c3 = created_at(s, es, 3);
        let c4 = created_at(s, es, 4);
        if p <= 1 {
            lemma_concat_contains(c0, c1, x);
        }
        if p <= 2 {
            lemma_concat_contains(c0 + c1, c2, x);
        }
        if p <= 3 {
            lemma_concat_contains(c0 + c1 + c2, c3, x);
        }
        lemma_concat_contains(c0 + c1 + c2 + c3, c4, x);
        assert(made == c0 + c1 + c2 + c3 + c4);
        lemma_concat_contains(ents, made, x);
    }
}

} // verus!
