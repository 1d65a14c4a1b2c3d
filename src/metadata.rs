//! Per-object scratch storage that passes use to cache derived facts.
//!
//! Each key holds a value of one of a closed set of types; a read names the
//! type it expects and finds nothing on a mismatch. Each key also carries a
//! validity flag: a pass can mark a cached fact stale without deleting it.
use crate::enums::DataType;
use crate::shape::Shape;
use crate::text::str_eq;
use vstd::prelude::*;

verus! {

/// A value held by a metadata store, tagged with its type.
#[derive(Debug, Clone)]
pub enum MetaValue {
    Bool(bool),
    I32(i32),
    I64(i64),
    U64(u64),
    Usize(usize),
    Str(String),
    I32s(Vec<i32>),
    I64s(Vec<i64>),
    Strs(Vec<String>),
    Shape(Shape),
    DataType(DataType),
}

/// A type whose values a metadata store can hold.
pub trait MetaType: Sized {
    /// The tagged form of `v`.
    spec fn stored(v: Self) -> MetaValue;

    /// The value of this type that `m` holds, if `m` holds one.
    spec fn recover(m: MetaValue) -> Option<Self>;

    /// Reading back a stored value gives it again.
    proof fn lemma_recover(v: Self)
        ensures
            Self::recover(Self::stored(v)) == Some(v),
    ;

    /// Tags a value.
    fn store(self) -> (r: MetaValue)
        ensures
            r == Self::stored(self),
    ;

    /// Looks into a tagged value.
    fn peek(m: &MetaValue) -> (r: Option<&Self>)
        ensures
            match r {
                Some(x) => Self::recover(*m) == Some(*x),
                None => Self::recover(*m) is None,
            },
    ;

    /// Looks into a tagged value for change in place.
    fn peek_mut(m: &mut MetaValue) -> (r: Option<&mut Self>)
        ensures
            Self::recover(*old(m)) is None ==> r is None && *final(m) == *old(m),
            Self::recover(*old(m)) is Some ==> r is Some && Self::recover(*old(m)) == Some(*r->Some_0)
                && *final(m) == Self::stored(*final(r->Some_0)),
    ;

    /// Unwraps a tagged value.
    fn unwrap_value(m: MetaValue) -> (r: Option<Self>)
        ensures
            r == Self::recover(m),
    ;
}

impl MetaType for bool {
    open spec fn stored(v: Self) -> MetaValue {
        MetaValue::Bool(v)
    }

    open spec fn recover(m: MetaValue) -> Option<Self> {
        match m {
            MetaValue::Bool(x) => Some(x),
            _ => None,
        }
    }

    proof fn lemma_recover(v: Self) {
    }

    fn store(self) -> (r: MetaValue) {
        MetaValue::Bool(self)
    }

    fn peek(m: &MetaValue) -> (r: Option<&Self>) {
        match m {
            MetaValue::Bool(x) => Some(x),
            _ => None,
        }
    }

    fn peek_mut(m: &mut MetaValue) -> (r: Option<&mut Self>) {
        match m {
            MetaValue::Bool(x) => Some(x),
            _ => None,
        }
    }

    fn unwrap_value(m: MetaValue) -> (r: Option<Self>) {
        match m {
            MetaValue::Bool(x) => Some(x),
            _ => None,
        }
    }
}

impl MetaType for i32 {
    open spec fn stored(v: Self) -> MetaValue {
        MetaValue::I32(v)
    }

    open spec fn recover(m: MetaValue) -> Option<Self> {
        match m {
            MetaValue::I32(x) => Some(x),
            _ => None,
        }
    }

    proof fn lemma_recover(v: Self) {
    }

    fn store(self) -> (r: MetaValue) {
        MetaValue::I32(self)
    }

    fn peek(m: &MetaValue) -> (r: Option<&Self>) {
        match m {
            MetaValue::I32(x) => Some(x),
            _ => None,
        }
    }

    fn peek_mut(m: &mut MetaValue) -> (r: Option<&mut Self>) {
        match m {
            MetaValue::I32(x) => Some(x),
            _ => None,
        }
    }

    fn unwrap_value(m: MetaValue) -> (r: Option<Self>) {
        match m {
            MetaValue::I32(x) => Some(x),
            _ => None,
        }
    }
}

impl MetaType for i64 {
    open spec fn stored(v: Self) -> MetaValue {
        MetaValue::I64(v)
    }

    open spec fn recover(m: MetaValue) -> Option<Self> {
        match m {
            MetaValue::I64(x) => Some(x),
            _ => None,
        }
    }

    proof fn lemma_recover(v: Self) {
    }

    fn store(self) -> (r: MetaValue) {
        MetaValue::I64(self)
    }

    fn peek(m: &MetaValue) -> (r: Option<&Self>) {
        match m {
            MetaValue::I64(x) => Some(x),
            _ => None,
        }
    }

    fn peek_mut(m: &mut MetaValue) -> (r: Option<&mut Self>) {
        match m {
            MetaValue::I64(x) => Some(x),
            _ => None,
        }
    }

    fn unwrap_value(m: MetaValue) -> (r: Option<Self>) {
        match m {
            MetaValue::I64(x) => Some(x),
            _ => None,
        }
    }
}

impl MetaType for u64 {
    open spec fn stored(v: Self) -> MetaValue {
        MetaValue::U64(v)
    }

    open spec fn recover(m: MetaValue) -> Option<Self> {
        match m {
            MetaValue::U64(x) => Some(x),
            _ => None,
        }
    }

    proof fn lemma_recover(v: Self) {
    }

    fn store(self) -> (r: MetaValue) {
        MetaValue::U64(self)
    }

    fn peek(m: &MetaValue) -> (r: Option<&Self>) {
        match m {
            MetaValue::U64(x) => Some(x),
            _ => None,
        }
    }

    fn peek_mut(m: &mut MetaValue) -> (r: Option<&mut Self>) {
        match m {
            MetaValue::U64(x) => Some(x),
            _ => None,
        }
    }

    fn unwrap_value(m: MetaValue) -> (r: Option<Self>) {
        match m {
            MetaValue::U64(x) => Some(x),
            _ => None,
        }
    }
}

impl MetaType for usize {
    open spec fn stored(v: Self) -> MetaValue {
        MetaValue::Usize(v)
    }

    open spec fn recover(m: MetaValue) -> Option<Self> {
        match m {
            MetaValue::Usize(x) => Some(x),
            _ => None,
        }
    }

    proof fn lemma_recover(v: Self) {
    }

    fn store(self) -> (r: MetaValue) {
        MetaValue::Usize(self)
    }

    fn peek(m: &MetaValue) -> (r: Option<&Self>) {
        match m {
            MetaValue::Usize(x) => Some(x),
            _ => None,
        }
    }

    fn peek_mut(m: &mut MetaValue) -> (r: Option<&mut Self>) {
        match m {
            MetaValue::Usize(x) => Some(x),
            _ => None,
        }
    }

    fn unwrap_value(m: MetaValue) -> (r: Option<Self>) {
        match m {
            MetaValue::Usize(x) => Some(x),
            _ => None,
        }
    }
}

impl MetaType for String {
    open spec fn stored(v: Self) -> MetaValue {
        MetaValue::Str(v)
    }

    open spec fn recover(m: MetaValue) -> Option<Self> {
        match m {
            MetaValue::Str(x) => Some(x),
            _ => None,
        }
    }

    proof fn lemma_recover(v: Self) {
    }

    fn store(self) -> (r: MetaValue) {
        MetaValue::Str(self)
    }

    fn peek(m: &MetaValue) -> (r: Option<&Self>) {
        match m {
            MetaValue::Str(x) => Some(x),
            _ => None,
        }
    }

    fn peek_mut(m: &mut MetaValue) -> (r: Option<&mut Self>) {
        match m {
            MetaValue::Str(x) => Some(x),
            _ => None,
        }
    }

    fn unwrap_value(m: MetaValue) -> (r: Option<Self>) {
        match m {
            MetaValue::Str(x) => Some(x),
            _ => None,
        }
    }
}

impl MetaType for Vec<i32> {
    open spec fn stored(v: Self) -> MetaValue {
        MetaValue::I32s(v)
    }

    open spec fn recover(m: MetaValue) -> Option<Self> {
        match m {
            MetaValue::I32s(x) => Some(x),
            _ => None,
        }
    }

    proof fn lemma_recover(v: Self) {
    }

    fn store(self) -> (r: MetaValue) {
        MetaValue::I32s(self)
    }

    fn peek(m: &MetaValue) -> (r: Option<&Self>) {
        match m {
            MetaValue::I32s(x) => Some(x),
            _ => None,
        }
    }

    fn peek_mut(m: &mut MetaValue) -> (r: Option<&mut Self>) {
        match m {
            MetaValue::I32s(x) => Some(x),
            _ => None,
        }
    }

    fn unwrap_value(m: MetaValue) -> (r: Option<Self>) {
        match m {
            MetaValue::I32s(x) => Some(x),
            _ => None,
        }
    }
}

impl MetaType for Vec<i64> {
    open spec fn stored(v: Self) -> MetaValue {
        MetaValue::I64s(v)
    }

    open spec fn recover(m: MetaValue) -> Option<Self> {
        match m {
            MetaValue::I64s(x) => Some(x),
            _ => None,
        }
    }

    proof fn lemma_recover(v: Self) {
    }

    fn store(self) -> (r: MetaValue) {
        MetaValue::I64s(self)
    }

    fn peek(m: &MetaValue) -> (r: Option<&Self>) {
        match m {
            MetaValue::I64s(x) => Some(x),
            _ => None,
        }
    }

    fn peek_mut(m: &mut MetaValue) -> (r: Option<&mut Self>) {
        match m {
            MetaValue::I64s(x) => Some(x),
            _ => None,
        }
    }

    fn unwrap_value(m: MetaValue) -> (r: Option<Self>) {
        match m {
            MetaValue::I64s(x) => Some(x),
            _ => None,
        }
    }
}

impl MetaType for Vec<String> {
    open spec fn stored(v: Self) -> MetaValue {
        MetaValue::Strs(v)
    }

    open spec fn recover(m: MetaValue) -> Option<Self> {
        match m {
            MetaValue::Strs(x) => Some(x),
            _ => None,
        }
    }

    proof fn lemma_recover(v: Self) {
    }

    fn store(self) -> (r: MetaValue) {
        MetaValue::Strs(self)
    }

    fn peek(m: &MetaValue) -> (r: Option<&Self>) {
        match m {
            MetaValue::Strs(x) => Some(x),
            _ => None,
        }
    }

    fn peek_mut(m: &mut MetaValue) -> (r: Option<&mut Self>) {
        match m {
            MetaValue::Strs(x) => Some(x),
            _ => None,
        }
    }

    fn unwrap_value(m: MetaValue) -> (r: Option<Self>) {
        match m {
            MetaValue::Strs(x) => Some(x),
            _ => None,
        }
    }
}

impl MetaType for Shape {
    open spec fn stored(v: Self) -> MetaValue {
        MetaValue::Shape(v)
    }

    open spec fn recover(m: MetaValue) -> Option<Self> {
        match m {
            MetaValue::Shape(x) => Some(x),
            _ => None,
        }
    }

    proof fn lemma_recover(v: Self) {
    }

    fn store(self) -> (r: MetaValue) {
        MetaValue::Shape(self)
    }

    fn peek(m: &MetaValue) -> (r: Option<&Self>) {
        match m {
            MetaValue::Shape(x) => Some(x),
            _ => None,
        }
    }

    fn peek_mut(m: &mut MetaValue) -> (r: Option<&mut Self>) {
        match m {
            MetaValue::Shape(x) => Some(x),
            _ => None,
        }
    }

    fn unwrap_value(m: MetaValue) -> (r: Option<Self>) {
        match m {
            MetaValue::Shape(x) => Some(x),
            _ => None,
        }
    }
}

impl MetaType for DataType {
    open spec fn stored(v: Self) -> MetaValue {
        MetaValue::DataType(v)
    }

    open spec fn recover(m: MetaValue) -> Option<Self> {
        match m {
            MetaValue::DataType(x) => Some(x),
            _ => None,
        }
    }

    proof fn lemma_recover(v: Self) {
    }

    fn store(self) -> (r: MetaValue) {
        MetaValue::DataType(self)
    }

    fn peek(m: &MetaValue) -> (r: Option<&Self>) {
        match m {
            MetaValue::DataType(x) => Some(x),
            _ => None,
        }
    }

    fn peek_mut(m: &mut MetaValue) -> (r: Option<&mut Self>) {
        match m {
            MetaValue::DataType(x) => Some(x),
            _ => None,
        }
    }

    fn unwrap_value(m: MetaValue) -> (r: Option<Self>) {
        match m {
            MetaValue::DataType(x) => Some(x),
            _ => None,
        }
    }
}

/// A string-keyed store of tagged values, each key with a validity flag.
#[derive(Debug, Clone)]
pub struct MetadataStore {
    data: Vec<(String, MetaValue)>,
    invalid_keys: Vec<String>,
}

impl MetadataStore {
    /// The keys in the order they were first stored.
    pub closed spec fn keys_seq(&self) -> Seq<Seq<char>> {
        self.data@.map_values(|e: (String, MetaValue)| e.0@)
    }

    /// What the store holds, by key.
    pub closed spec fn data(&self) -> Map<Seq<char>, MetaValue> {
        Map::new(
            |k: Seq<char>| exists|i: int| 0 <= i < self.data@.len() && self.data@[i].0@ == k,
            |k: Seq<char>| self.data@[choose|i: int| 0 <= i < self.data@.len() && self.data@[i].0@ == k].1,
        )
    }

    /// The keys marked stale.
    pub closed spec fn invalid(&self) -> Set<Seq<char>> {
        Set::new(|k: Seq<char>| exists|i: int| 0 <= i < self.invalid_keys@.len() && self.invalid_keys@[i]@ == k)
    }

    /// Each key is stored once.
    pub closed spec fn wf(&self) -> bool {
        forall|i: int, j: int| 0 <= i < self.data@.len() && 0 <= j < self.data@.len() && i != j
            ==> #[trigger] self.data@[i].0@ != #[trigger] self.data@[j].0@
    }

    /// The value under `k` is present and not marked stale.
    pub open spec fn valid(&self, k: Seq<char>) -> bool {
        self.data().contains_key(k) && !self.invalid().contains(k)
    }

    proof fn lemma_data_at(&self, i: int)
        requires
            self.wf(),
            0 <= i < self.data@.len(),
        ensures
            self.data().contains_key(self.data@[i].0@),
            self.data()[self.data@[i].0@] == self.data@[i].1,
    {
        let k = self.data@[i].0@;
        assert(0 <= i < self.data@.len() && self.data@[i].0@ == k);
        let j = choose|j: int| 0 <= j < self.data@.len() && self.data@[j].0@ == k;
        assert(i == j);
    }

    /// Creates an empty store.
    pub fn new() -> (r: Self)
        ensures
            r.wf(),
            r.data() == Map::<Seq<char>, MetaValue>::empty(),
            r.invalid() == Set::<Seq<char>>::empty(),
    {
        let r = MetadataStore { data: Vec::new(), invalid_keys: Vec::new() };
        assert(r.data() =~= Map::<Seq<char>, MetaValue>::empty());
        assert(r.invalid() =~= Set::<Seq<char>>::empty());
        r
    }

    fn find(&self, key: &str) -> (r: Option<usize>)
        requires
            self.wf(),
        ensures
            match r {
                Some(i) => i < self.data@.len() && self.data@[i as int].0@ == key@,
                None => !self.data().contains_key(key@),
            },
    {
        let mut i: usize = 0;
        while i < self.data.len()
            invariant
                i <= self.data@.len(),
                forall|j: int| 0 <= j < i ==> (#[trigger] self.data@[j]).0@ != key@,
            decreases self.data@.len() - i,
        {
            if str_eq(self.data[i].0.as_str(), key) {
                return Some(i);
            }
            i = i + 1;
        }
        None
    }

    fn unmark(&mut self, key: &str)
        requires
            old(self).wf(),
        ensures
            final(self).wf(),
            final(self).data() == old(self).data(),
            final(self).invalid() == old(self).invalid().remove(key@),
    {
        let mut kept: Vec<String> = Vec::new();
        let mut i: usize = 0;
        while i < self.invalid_keys.len()
            invariant
                i <= self.invalid_keys@.len(),
                forall|j: int| 0 <= j < kept@.len() ==> (#[trigger] kept@[j])@ != key@
                    && exists|t: int| 0 <= t < i && self.invalid_keys@[t]@ == kept@[j]@,
                forall|t: int| 0 <= t < i && (#[trigger] self.invalid_keys@[t])@ != key@
                    ==> exists|j: int| 0 <= j < kept@.len() && kept@[j]@ == self.invalid_keys@[t]@,
            decreases self.invalid_keys@.len() - i,
        {
            if !str_eq(self.invalid_keys[i].as_str(), key) {
                let ghost before = kept@;
                let k = self.invalid_keys[i].clone();
                kept.push(k);
                proof {
                    assert(kept@[kept@.len() - 1] == self.invalid_keys@[i as int]);
                    assert forall|t: int| 0 <= t < i + 1 && (#[trigger] self.invalid_keys@[t])@ != key@
                        implies exists|j: int| 0 <= j < kept@.len() && kept@[j]@ == self.invalid_keys@[t]@ by {
                        if t < i {
                            let j = choose|j: int| 0 <= j < before.len() && before[j]@ == self.invalid_keys@[t]@;
                            assert(kept@[j] == before[j]);
                        } else {
                            assert(kept@[kept@.len() - 1]@ == self.invalid_keys@[t]@);
                        }
                    }
                    assert forall|j: int| 0 <= j < kept@.len() implies (#[trigger] kept@[j])@ != key@
                        && exists|t: int| 0 <= t < i + 1 && self.invalid_keys@[t]@ == kept@[j]@ by {
                        if j < before.len() {
                            assert(kept@[j] == before[j]);
                            let t = choose|t: int| 0 <= t < i && self.invalid_keys@[t]@ == before[j]@;
                        } else {
                            assert(self.invalid_keys@[i as int]@ == kept@[j]@);
                        }
                    }
                }
            }
            i = i + 1;
        }
        let ghost prior = self.invalid();
        self.invalid_keys = kept;
        proof {
            assert(self.invalid() =~= prior.remove(key@));
        }
    }

    /// Stores `value` under `key` and marks the key valid.
    pub fn insert<T: MetaType>(&mut self, key: &str, value: T)
        requires
            old(self).wf(),
        ensures
            final(self).wf(),
            final(self).data() == old(self).data().insert(key@, T::stored(value)),
            final(self).invalid() == old(self).invalid().remove(key@),
            final(self).valid(key@),
    {
        let m = value.store();
        let ghost prior = self.data();
        match self.find(key) {
            Some(i) => {
                let k = self.data[i].0.clone();
                self.data.set(i, (k, m));
                proof {
                    assert forall|a: int, b: int| 0 <= a < self.data@.len() && 0 <= b < self.data@.len() && a != b
                        implies #[trigger] self.data@[a].0@ != #[trigger] self.data@[b].0@ by {
                        assert(old(self).data@[a].0@ == self.data@[a].0@);
                        assert(old(self).data@[b].0@ == self.data@[b].0@);
                    }
                    assert forall|k2: Seq<char>| #[trigger] self.data().contains_key(k2) == prior.insert(key@, m).contains_key(k2) by {
                        if self.data().contains_key(k2) {
                            let j = choose|j: int| 0 <= j < self.data@.len() && self.data@[j].0@ == k2;
                            old(self).lemma_data_at(j);
                        }
                        if prior.contains_key(k2) {
                            let j = choose|j: int| 0 <= j < old(self).data@.len() && old(self).data@[j].0@ == k2;
                            self.lemma_data_at(j);
                        }
                        if k2 == key@ {
                            self.lemma_data_at(i as int);
                        }
                    }
                    assert forall|k2: Seq<char>| #[trigger] self.data().contains_key(k2) implies self.data()[k2] == prior.insert(key@, m)[k2] by {
                        let j = choose|j: int| 0 <= j < self.data@.len() && self.data@[j].0@ == k2;
                        self.lemma_data_at(j);
                        old(self).lemma_data_at(j);
                    }
                    assert(self.data() =~= prior.insert(key@, m));
                }
            },
            None => {
                let k = key.to_owned();
                self.data.push((k, m));
                proof {
                    let n = self.data@.len() - 1;
                    assert forall|a: int, b: int| 0 <= a < self.data@.len() && 0 <= b < self.data@.len() && a != b
                        implies #[trigger] self.data@[a].0@ != #[trigger] self.data@[b].0@ by {
                        if a == n {
                            old(self).lemma_data_at(b);
                        } else if b == n {
                            old(self).lemma_data_at(a);
                        } else {
                            assert(old(self).data@[a] == self.data@[a]);
                            assert(old(self).data@[b] == self.data@[b]);
                        }
                    }
                    assert forall|k2: Seq<char>| #[trigger] self.data().contains_key(k2) == prior.insert(key@, m).contains_key(k2) by {
                        if self.data().contains_key(k2) {
                            let j = choose|j: int| 0 <= j < self.data@.len() && self.data@[j].0@ == k2;
                            if j < n {
                                assert(old(self).data@[j] == self.data@[j]);
                                old(self).lemma_data_at(j);
                            }
                        }
                        if prior.contains_key(k2) {
                            let j = choose|j: int| 0 <= j < old(self).data@.len() && old(self).data@[j].0@ == k2;
                            assert(old(self).data@[j] == self.data@[j]);
                            self.lemma_data_at(j);
                        }
                        if k2 == key@ {
                            self.lemma_data_at(n);
                        }
                    }
                    assert forall|k2: Seq<char>| #[trigger] self.data().contains_key(k2) implies self.data()[k2] == prior.insert(key@, m)[k2] by {
                        let j = choose|j: int| 0 <= j < self.data@.len() && self.data@[j].0@ == k2;
                        self.lemma_data_at(j);
                        if j < n {
                            assert(old(self).data@[j] == self.data@[j]);
                            old(self).lemma_data_at(j);
                        }
                    }
                    assert(self.data() =~= prior.insert(key@, m));
                }
            },
        }
        self.unmark(key);
    }

    /// Returns the value under `key` if it is present and of type `T`.
    pub fn get<T: MetaType>(&self, key: &str) -> (r: Option<&T>)
        requires
            self.wf(),
        ensures
            match r {
                Some(x) => self.data().contains_key(key@) && T::recover(self.data()[key@]) == Some(*x),
                None => !self.data().contains_key(key@) || T::recover(self.data()[key@]) is None,
            },
    {
        match self.find(key) {
            Some(i) => {
                proof {
                    self.lemma_data_at(i as int);
                }
                T::peek(&self.data[i].1)
            },
            None => None,
        }
    }

    /// Returns the value under `key` for change in place if it is present
    /// and of type `T`; what is written through it is stored under `key`.
    pub fn get_mut<T: MetaType>(&mut self, key: &str) -> (r: Option<&mut T>)
        requires
            old(self).wf(),
        ensures
            r is None && !old(self).data().contains_key(key@) ==> *final(self) == *old(self),
            r is None && old(self).data().contains_key(key@) ==> T::recover(old(self).data()[key@]) is None
                && final(self).replaced(old(self), key@, old(self).data()[key@]),
            r is Some ==> old(self).data().contains_key(key@) && T::recover(old(self).data()[key@]) == Some(*r->Some_0)
                && final(self).replaced(old(self), key@, T::stored(*final(r->Some_0))),
    {
        match self.find(key) {
            Some(i) => {
                proof {
                    self.lemma_data_at(i as int);
                }
                T::peek_mut(&mut self.data[i].1)
            },
            None => None,
        }
    }

    /// `self` is `before` with the value under key `k` replaced by `m` in
    /// its place; see `lemma_replaced` for what that does to the store.
    pub closed spec fn replaced(&self, before: &Self, k: Seq<char>, m: MetaValue) -> bool {
        exists|i: int| 0 <= i < before.data@.len() && before.data@[i].0@ == k
            && self.data@ == before.data@.update(i, (before.data@[i].0, m))
            && self.invalid_keys == before.invalid_keys
    }

    /// Replacing the value under a key stores the new value under it and
    /// changes nothing else.
    pub broadcast proof fn lemma_replaced(after: &Self, before: &Self, k: Seq<char>, m: MetaValue)
        requires
            before.wf(),
            #[trigger] after.replaced(before, k, m),
        ensures
            after.wf(),
            after.data() == before.data().insert(k, m),
            after.invalid() == before.invalid(),
    {
        let i = choose|i: int| 0 <= i < before.data@.len() && before.data@[i].0@ == k
            && after.data@ == before.data@.update(i, (before.data@[i].0, m))
            && after.invalid_keys == before.invalid_keys;
        let key = k;
        let me = before;
        me.lemma_store_at(*after, i, m);
    }

    proof fn lemma_store_at(&self, after: Self, i: int, m: MetaValue)
        requires
            self.wf(),
            0 <= i < self.data@.len(),
            after.data@ == self.data@.update(i, (self.data@[i].0, m)),
            after.invalid_keys == self.invalid_keys,
        ensures
            after.wf(),
            after.data() == self.data().insert(self.data@[i].0@, m),
            after.invalid() == self.invalid(),
    {
        let key = self.data@[i].0@;
        let prior = self.data();
        assert forall|a: int, b: int| 0 <= a < after.data@.len() && 0 <= b < after.data@.len() && a != b
            implies #[trigger] after.data@[a].0@ != #[trigger] after.data@[b].0@ by {
            assert(self.data@[a].0@ == after.data@[a].0@);
            assert(self.data@[b].0@ == after.data@[b].0@);
        }
        assert forall|k2: Seq<char>| #[trigger] after.data().contains_key(k2) == prior.insert(key, m).contains_key(k2) by {
            if after.data().contains_key(k2) {
                let j = choose|j: int| 0 <= j < after.data@.len() && after.data@[j].0@ == k2;
                self.lemma_data_at(j);
            }
            if prior.contains_key(k2) {
                let j = choose|j: int| 0 <= j < self.data@.len() && self.data@[j].0@ == k2;
                after.lemma_data_at(j);
            }
            if k2 == key {
                after.lemma_data_at(i);
            }
        }
        assert forall|k2: Seq<char>| #[trigger] after.data().contains_key(k2) implies after.data()[k2] == prior.insert(key, m)[k2] by {
            let j = choose|j: int| 0 <= j < after.data@.len() && after.data@[j].0@ == k2;
            after.lemma_data_at(j);
            self.lemma_data_at(j);
        }
        assert(after.data() =~= prior.insert(key, m));
        assert(after.invalid() =~= self.invalid());
    }

    /// Removes the entry under `key` and returns its value, if it is present
    /// and of type `T`; otherwise the store stays as it is.
    pub fn remove<T: MetaType>(&mut self, key: &str) -> (r: Option<T>)
        requires
            old(self).wf(),
        ensures
            final(self).wf(),
            old(self).data().contains_key(key@) && T::recover(old(self).data()[key@]) is Some ==> final(self).data()
                == old(self).data().remove(key@) && final(self).invalid() == old(self).invalid().remove(key@)
                && r == T::recover(old(self).data()[key@]),
            !(old(self).data().contains_key(key@) && T::recover(old(self).data()[key@]) is Some) ==> *final(self)
                == *old(self) && r is None,
    {
        match self.find(key) {
            Some(i) => {
                let ghost prior = self.data();
                proof {
                    self.lemma_data_at(i as int);
                }
                if T::peek(&self.data[i].1).is_none() {
                    return None;
                }
                let (_, m) = self.data.remove(i);
                proof {
                    assert forall|a: int, b: int| 0 <= a < self.data@.len() && 0 <= b < self.data@.len() && a != b
                        implies #[trigger] self.data@[a].0@ != #[trigger] self.data@[b].0@ by {
                        let a0 = if a < i { a } else { a + 1 };
                        let b0 = if b < i { b } else { b + 1 };
                        assert(self.data@[a] == old(self).data@[a0]);
                        assert(self.data@[b] == old(self).data@[b0]);
                    }
                    assert forall|k2: Seq<char>| #[trigger] self.data().contains_key(k2) == prior.remove(key@).contains_key(k2) by {
                        if self.data().contains_key(k2) {
                            let j = choose|j: int| 0 <= j < self.data@.len() && self.data@[j].0@ == k2;
                            let j0 = if j < i { j } else { j + 1 };
                            assert(self.data@[j] == old(self).data@[j0]);
                            old(self).lemma_data_at(j0);
                        }
                        if prior.contains_key(k2) && k2 != key@ {
                            let j = choose|j: int| 0 <= j < old(self).data@.len() && old(self).data@[j].0@ == k2;
                            let j1 = if j < i { j } else { j - 1 };
                            assert(j != i);
                            assert(self.data@[j1] == old(self).data@[j]);
                            self.lemma_data_at(j1);
                        }
                    }
                    assert forall|k2: Seq<char>| #[trigger] self.data().contains_key(k2) implies self.data()[k2] == prior.remove(key@)[k2] by {
                        let j = choose|j: int| 0 <= j < self.data@.len() && self.data@[j].0@ == k2;
                        let j0 = if j < i { j } else { j + 1 };
                        assert(self.data@[j] == old(self).data@[j0]);
                        self.lemma_data_at(j);
                        old(self).lemma_data_at(j0);
                    }
                    assert(self.data() =~= prior.remove(key@));
                }
                self.unmark(key);
                T::unwrap_value(m)
            },
            None => None,
        }
    }

    /// Returns true if `key` holds a value.
    pub fn contains_key(&self, key: &str) -> (r: bool)
        requires
            self.wf(),
        ensures
            r == self.data().contains_key(key@),
    {
        match self.find(key) {
            Some(i) => {
                proof {
                    self.lemma_data_at(i as int);
                }
                true
            },
            None => false,
        }
    }

    fn is_marked(&self, key: &str) -> (r: bool)
        ensures
            r == self.invalid().contains(key@),
    {
        let mut i: usize = 0;
        while i < self.invalid_keys.len()
            invariant
                i <= self.invalid_keys@.len(),
                forall|j: int| 0 <= j < i ==> (#[trigger] self.invalid_keys@[j])@ != key@,
            decreases self.invalid_keys@.len() - i,
        {
            if str_eq(self.invalid_keys[i].as_str(), key) {
                return true;
            }
            i = i + 1;
        }
        false
    }

    /// Marks `key` stale; its value, if any, stays.
    pub fn invalidate(&mut self, key: &str)
        requires
            old(self).wf(),
        ensures
            final(self).wf(),
            final(self).data() == old(self).data(),
            final(self).invalid() == old(self).invalid().insert(key@),
            !final(self).valid(key@),
    {
        if self.is_marked(key) {
            proof {
                assert(self.invalid() =~= self.invalid().insert(key@));
            }
            return;
        }
        let ghost prior = self.invalid();
        let ghost d = self.data();
        self.invalid_keys.push(key.to_owned());
        proof {
            let n = self.invalid_keys@.len() - 1;
            assert forall|k: Seq<char>| #[trigger] self.invalid().contains(k) == prior.insert(key@).contains(k) by {
                if self.invalid().contains(k) {
                    let j = choose|j: int| 0 <= j < self.invalid_keys@.len() && self.invalid_keys@[j]@ == k;
                    if j < n {
                        assert(old(self).invalid_keys@[j] == self.invalid_keys@[j]);
                    }
                }
                if prior.contains(k) {
                    let j = choose|j: int| 0 <= j < old(self).invalid_keys@.len() && old(self).invalid_keys@[j]@ == k;
                    assert(old(self).invalid_keys@[j] == self.invalid_keys@[j]);
                }
                if k == key@ {
                    assert(self.invalid_keys@[n]@ == key@);
                }
            }
            assert(self.invalid() =~= prior.insert(key@));
            assert(self.data() =~= d);
        }
    }

    /// Returns true if `key` holds a value that is not marked stale.
    pub fn is_valid(&self, key: &str) -> (r: bool)
        requires
            self.wf(),
        ensures
            r == self.valid(key@),
    {
        self.contains_key(key) && !self.is_marked(key)
    }

    /// Removes every value and every mark.
    pub fn clear(&mut self)
        ensures
            final(self).wf(),
            final(self).data() == Map::<Seq<char>, MetaValue>::empty(),
            final(self).invalid() == Set::<Seq<char>>::empty(),
    {
        self.data = Vec::new();
        self.invalid_keys = Vec::new();
        proof {
            assert(self.data() =~= Map::<Seq<char>, MetaValue>::empty());
            assert(self.invalid() =~= Set::<Seq<char>>::empty());
        }
    }

    proof fn lemma_dom(&self)
        requires
            self.wf(),
        ensures
            self.data().dom() == self.keys_seq().to_set(),
            self.keys_seq().no_duplicates(),
            self.data().dom().len() == self.data@.len(),
    {
        let ks = self.keys_seq();
        assert forall|k: Seq<char>| #[trigger] self.data().dom().contains(k) == ks.to_set().contains(k) by {
            if self.data().dom().contains(k) {
                let j = choose|j: int| 0 <= j < self.data@.len() && self.data@[j].0@ == k;
                assert(ks[j] == k);
            }
            if ks.to_set().contains(k) {
                let j = choose|j: int| 0 <= j < ks.len() && ks[j] == k;
                assert(self.data@[j].0@ == k);
            }
        }
        assert(self.data().dom() =~= ks.to_set());
        assert forall|i: int, j: int| 0 <= i < ks.len() && 0 <= j < ks.len() && i != j implies ks[i] != ks[j] by {
            assert(ks[i] == self.data@[i].0@);
            assert(ks[j] == self.data@[j].0@);
        }
        ks.unique_seq_to_set();
    }

    /// Returns the number of keys that hold a value.
    pub fn len(&self) -> (r: usize)
        requires
            self.wf(),
        ensures
            r == self.data().dom().len(),
    {
        proof {
            self.lemma_dom();
        }
        self.data.len()
    }

    /// Returns true if no key holds a value.
    pub fn is_empty(&self) -> (r: bool)
        requires
            self.wf(),
        ensures
            r == (self.data().dom().len() == 0),
    {
        proof {
            self.lemma_dom();
        }
        self.data.len() == 0
    }

    /// Returns the keys that hold a value, each once, in the order they were first stored.
    pub fn keys(&self) -> (r: Vec<String>)
        requires
            self.wf(),
        ensures
            r@.map_values(|s: String| s@) == self.keys_seq(),
            r@.map_values(|s: String| s@).to_set() == self.data().dom(),
    {
        let mut out: Vec<String> = Vec::new();
        let mut i: usize = 0;
        while i < self.data.len()
            invariant
                i <= self.data@.len(),
                out@.len() == i,
                out@.map_values(|s: String| s@) == self.keys_seq().subrange(0, i as int),
            decreases self.data@.len() - i,
        {
            let ghost before = out@;
            out.push(self.data[i].0.clone());
            proof {
                assert(out@[i as int] == self.data@[i as int].0);
                assert forall|j: int| 0 <= j < i implies out@[j] == before[j] by {}
                assert(before.map_values(|s: String| s@) == self.keys_seq().subrange(0, i as int));
                assert forall|j: int| 0 <= j < i implies out@[j]@ == self.keys_seq()[j] by {
                    assert(before.map_values(|s: String| s@)[j] == before[j]@);
                }
                assert(out@.map_values(|s: String| s@) =~= self.keys_seq().subrange(0, i + 1));
            }
            i = i + 1;
        }
        proof {
            assert(self.keys_seq().subrange(0, self.data@.len() as int) =~= self.keys_seq());
            self.lemma_dom();
        }
        out
    }
}

/// A value read back after any later edits of other keys and of validity is
/// the one last stored: storing makes a key valid, marking it stale keeps
/// its value readable, and storing again makes it valid again.
pub proof fn lemma_cache_cycle<T: MetaType>(s0: MetadataStore, s1: MetadataStore, s2: MetadataStore, s3: MetadataStore, k: Seq<char>, x: T, y: T)
    requires
        s1.data() == s0.data().insert(k, T::stored(x)),
        s1.invalid() == s0.invalid().remove(k),
        s2.data() == s1.data(),
        s2.invalid() == s1.invalid().insert(k),
        s3.data() == s2.data().insert(k, T::stored(y)),
        s3.invalid() == s2.invalid().remove(k),
    ensures
        s1.valid(k),
        !s2.valid(k),
        T::recover(s2.data()[k]) == Some(x),
        s3.valid(k),
        T::recover(s3.data()[k]) == Some(y),
{
    T::lemma_recover(x);
    T::lemma_recover(y);
}

impl Default for MetadataStore {
    fn default() -> (r: Self)
        ensures
            r.wf(),
            r.data() == Map::<Seq<char>, MetaValue>::empty(),
            r.invalid() == Set::<Seq<char>>::empty(),
    {
        MetadataStore::new()
    }
}

} // verus!
