//! A durable store that lives in memory.

use vstd::prelude::*;
use vstd::string::*;
use crate::models::error::AppError;
use crate::models::url::TinyUrl;
use crate::traits::repository::{holds, Records, UrlRepository};

verus! {

/// A store that keeps its records in memory, in the order in which they were
/// created. It is reliable: it fails only on a short code that is taken and
/// on an update of a record that is not there.
pub struct InMemoryUrlRepository {
    rows: Vec<TinyUrl>,
    next_id: i32,
    model: Ghost<Records>,
}

/// Whether `rows` and `model` tell the same: every row stands in the model
/// under its short code, every key of the model is the short code of a row,
/// and no two rows share a short code.
pub open spec fn mirrors(rows: Seq<TinyUrl>, model: Records) -> bool {
    &&& forall|i: int| 0 <= i < rows.len() ==> holds(model, #[trigger] rows[i]@)
    &&& forall|code: Seq<char>| #[trigger]
        model.contains_key(code) ==> exists|i: int|
            0 <= i < rows.len() && #[trigger] rows[i]@.short_code == code
    &&& forall|i: int, j: int|
        0 <= i < j < rows.len() ==> #[trigger] rows[i]@.short_code != #[trigger] rows[j]@.short_code
}

impl InMemoryUrlRepository {
    #[verifier::type_invariant]
    spec fn sound(self) -> bool {
        mirrors(self.rows@, self.model@)
    }

    /// A store that holds nothing.
    pub fn new() -> (store: Self)
        ensures
            store.records() == Records::empty(),
    {
        InMemoryUrlRepository { rows: Vec::new(), next_id: 1, model: Ghost(Map::empty()) }
    }

    /// How many records the store holds.
    pub fn len(&self) -> (count: usize)
        ensures
            count == self.records().len(),
            self.records().dom().finite(),
    {
        proof {
            use_type_invariant(self);
            lemma_mirrored_len(self.rows@, self.model@);
        }
        self.rows.len()
    }

    /// Where the row for `short_code` stands, if there is one.
    fn position(&self, short_code: &String) -> (at: Option<usize>)
        ensures
            match at {
                Some(i) => i < self.rows@.len() && self.rows@[i as int]@.short_code == short_code@,
                None => !self.model@.contains_key(short_code@),
            },
    {
        proof {
            use_type_invariant(self);
        }
        let mut i: usize = 0;
        while i < self.rows.len()
            invariant
                i <= self.rows@.len(),
                forall|j: int| 0 <= j < i ==> (#[trigger] self.rows@[j])@.short_code != short_code@,
            decreases self.rows@.len() - i,
        {
            if self.rows[i].short_code == *short_code {
                return Some(i);
            }
            i = i + 1;
        }
        None
    }
}

/// A model that rows mirror has as many keys as there are rows.
pub proof fn lemma_mirrored_len(rows: Seq<TinyUrl>, model: Records)
    requires
        mirrors(rows, model),
    ensures
        model.dom().finite(),
        model.len() == rows.len(),
    decreases rows.len(),
{
    if rows.len() == 0 {
        assert(model.dom() =~= Set::<Seq<char>>::empty());
    } else {
        let last = rows.last();
        let rest = rows.drop_last();
        let smaller = model.remove(last@.short_code);
        assert(holds(model, rows[rows.len() - 1]@));
        assert forall|i: int| 0 <= i < rest.len() implies holds(smaller, #[trigger] rest[i]@) by {
            assert(holds(model, rows[i]@));
            assert(rows[i]@.short_code != rows[rows.len() - 1]@.short_code);
        }
        assert forall|code: Seq<char>| #[trigger] smaller.contains_key(code) implies exists|i: int|
            0 <= i < rest.len() && #[trigger] rest[i]@.short_code == code by {
            assert(model.contains_key(code));
            let i = choose|i: int| 0 <= i < rows.len() && #[trigger] rows[i]@.short_code == code;
            assert(rest[i]@.short_code == code);
        }
        assert forall|i: int, j: int| 0 <= i < j < rest.len() implies #[trigger] rest[i]@.short_code
            != #[trigger] rest[j]@.short_code by {
            assert(rows[i]@.short_code != rows[j]@.short_code);
        }
        lemma_mirrored_len(rest, smaller);
        assert(model.dom() =~= smaller.dom().insert(last@.short_code));
    }
}

impl UrlRepository for InMemoryUrlRepository {
    closed spec fn records(&self) -> Records {
        self.model@
    }

    open spec fn reliable(&self) -> bool {
        true
    }

    /// Stores a copy of `url` under the next id, timestamps as given.
    fn create(&mut self, url: &TinyUrl) -> (r: Result<TinyUrl, AppError>)
        ensures
            r matches Ok(saved) ==> saved@.created_at == url@.created_at && saved@.updated_at
                == url@.updated_at,
    {
        proof {
            use_type_invariant(&*self);
        }
        if self.position(&url.short_code).is_some() {
            return Err(AppError::Database("duplicate short code".to_owned()));
        }
        let mut taken = InMemoryUrlRepository::new();
        std::mem::swap(self, &mut taken);
        let InMemoryUrlRepository { mut rows, next_id, model: Ghost(model) } = taken;
        let mut saved = url.clone();
        saved.id = next_id;
        let ghost before = rows@;
        rows.push(saved.clone());
        let next_id = if next_id < i32::MAX {
            next_id + 1
        } else {
            next_id
        };
        let ghost code = url@.short_code;
        let ghost grown = model.insert(code, saved@);
        proof {
            assert forall|i: int| 0 <= i < rows@.len() implies holds(
                grown,
                #[trigger] rows@[i]@,
            ) by {
                if i < before.len() {
                    assert(rows@[i] == before[i]);
                    assert(holds(model, before[i]@));
                }
            }
            assert forall|known: Seq<char>| #[trigger] grown.contains_key(known) implies exists|
                i: int,
            | 0 <= i < rows@.len() && #[trigger] rows@[i]@.short_code == known by {
                if known == code {
                    assert(rows@[before.len() as int]@.short_code == known);
                } else {
                    assert(model.contains_key(known));
                    let i = choose|i: int|
                        0 <= i < before.len() && #[trigger] before[i]@.short_code == known;
                    assert(rows@[i]@.short_code == known);
                }
            }
            assert forall|i: int, j: int| 0 <= i < j < rows@.len() implies
                #[trigger] rows@[i]@.short_code != #[trigger] rows@[j]@.short_code by {
                assert(rows@[i] == before[i]);
                assert(holds(model, before[i]@));
                if j < before.len() {
                    assert(rows@[j] == before[j]);
                }
            }
        }
        *self = InMemoryUrlRepository { rows, next_id, model: Ghost(grown) };
        Ok(saved)
    }

    fn find_by_short_code(&self, short_code: &str) -> (r: Result<Option<TinyUrl>, AppError>) {
        proof {
            use_type_invariant(self);
        }
        let wanted = short_code.to_owned();
        match self.position(&wanted) {
            Some(i) => {
                assert(holds(self.model@, self.rows@[i as int]@));
                Ok(Some(self.rows[i].clone()))
            },
            None => Ok(None),
        }
    }

    /// The record for `long_url` that was created last; of several created
    /// at the same instant the one stored last.
    fn find_by_long_url(&self, long_url: &str) -> (r: Result<Option<TinyUrl>, AppError>) {
        proof {
            use_type_invariant(self);
        }
        let wanted = long_url.to_owned();
        let mut latest: Option<usize> = None;
        let mut i: usize = 0;
        while i < self.rows.len()
            invariant
                i <= self.rows@.len(),
                wanted@ == long_url@,
                match latest {
                    Some(at) => at < i && self.rows@[at as int]@.long_url == long_url@ && forall|
                        j: int,
                    |
                        0 <= j < i && (#[trigger] self.rows@[j])@.long_url == long_url@
                            ==> self.rows@[j]@.created_at.le(self.rows@[at as int]@.created_at),
                    None => forall|j: int|
                        0 <= j < i ==> (#[trigger] self.rows@[j])@.long_url != long_url@,
                },
            decreases self.rows@.len() - i,
        {
            if self.rows[i].long_url == wanted {
                let newer = match latest {
                    Some(at) => self.rows[at].created_at.no_later_than(self.rows[i].created_at),
                    None => true,
                };
                if newer {
                    proof {
                        if let Some(at) = latest {
                            assert forall|j: int|
                                0 <= j < i + 1 && (#[trigger] self.rows@[j])@.long_url
                                    == long_url@ implies self.rows@[j]@.created_at.le(
                                self.rows@[i as int]@.created_at,
                            ) by {
                                if j < i {
                                    assert(self.rows@[j]@.created_at.le(
                                        self.rows@[at as int]@.created_at,
                                    ));
                                }
                            }
                        }
                    }
                    latest = Some(i);
                }
            }
            i = i + 1;
        }
        match latest {
            Some(at) => {
                proof {
                    let found = self.rows@[at as int]@;
                    assert(holds(self.model@, found));
                    assert forall|code: Seq<char>| #[trigger]
                        self.model@.contains_key(code) && self.model@[code].long_url
                            == long_url@ implies self.model@[code].created_at.le(
                        found.created_at,
                    ) by {
                        let j = choose|j: int|
                            0 <= j < self.rows@.len() && #[trigger] self.rows@[j]@.short_code
                                == code;
                        assert(holds(self.model@, self.rows@[j]@));
                    }
                }
                Ok(Some(self.rows[at].clone()))
            },
            None => {
                proof {
                    assert forall|code: Seq<char>| #[trigger]
                        self.model@.contains_key(code) implies self.model@[code].long_url
                        != long_url@ by {
                        let j = choose|j: int|
                            0 <= j < self.rows@.len() && #[trigger] self.rows@[j]@.short_code
                                == code;
                        assert(holds(self.model@, self.rows@[j]@));
                    }
                }
                Ok(None)
            },
        }
    }

    /// Writes the URL, the QR code, the clicks and the time of the update of
    /// `url` to the record with its short code.
    fn update(&mut self, url: &TinyUrl) -> (r: Result<TinyUrl, AppError>)
        ensures
            r matches Ok(saved) ==> saved@.updated_at == url@.updated_at,
    {
        proof {
            use_type_invariant(&*self);
        }
        let at = match self.position(&url.short_code) {
            Some(at) => at,
            None => {
                return Err(AppError::Database("no record to update".to_owned()));
            },
        };
        let mut taken = InMemoryUrlRepository::new();
        std::mem::swap(self, &mut taken);
        let InMemoryUrlRepository { mut rows, next_id, model: Ghost(model) } = taken;
        let ghost before = rows@;
        assert(holds(model, before[at as int]@));
        let mut saved = url.clone();
        saved.id = rows[at].id;
        saved.created_at = rows[at].created_at;
        rows.set(at, saved.clone());
        let ghost code = url@.short_code;
        let ghost grown = model.insert(code, saved@);
        proof {
            assert forall|i: int| 0 <= i < rows@.len() implies holds(
                grown,
                #[trigger] rows@[i]@,
            ) by {
                if i != at {
                    assert(rows@[i] == before[i]);
                    assert(holds(model, before[i]@));
                    if i < at {
                        assert(before[i]@.short_code != before[at as int]@.short_code);
                    } else {
                        assert(before[at as int]@.short_code != before[i]@.short_code);
                    }
                }
            }
            assert forall|known: Seq<char>| #[trigger] grown.contains_key(known) implies exists|
                i: int,
            | 0 <= i < rows@.len() && #[trigger] rows@[i]@.short_code == known by {
                if known == code {
                    assert(rows@[at as int]@.short_code == known);
                } else {
                    assert(model.contains_key(known));
                    let i = choose|i: int|
                        0 <= i < before.len() && #[trigger] before[i]@.short_code == known;
                    assert(rows@[i]@.short_code == known);
                }
            }
            assert forall|i: int, j: int| 0 <= i < j < rows@.len() implies
                #[trigger] rows@[i]@.short_code != #[trigger] rows@[j]@.short_code by {
                assert(before[i]@.short_code != before[j]@.short_code);
                assert(rows@[i]@.short_code == before[i]@.short_code);
                assert(rows@[j]@.short_code == before[j]@.short_code);
            }
        }
        *self = InMemoryUrlRepository { rows, next_id, model: Ghost(grown) };
        Ok(saved)
    }

    fn delete_by_short_code(&mut self, short_code: &str) -> (r: Result<bool, AppError>) {
        proof {
            use_type_invariant(&*self);
        }
        let wanted = short_code.to_owned();
        let at = match self.position(&wanted) {
            Some(at) => at,
            None => {
                assert(self.model@.remove(short_code@) =~= self.model@);
                return Ok(false);
            },
        };
        let mut taken = InMemoryUrlRepository::new();
        std::mem::swap(self, &mut taken);
        let InMemoryUrlRepository { mut rows, next_id, model: Ghost(model) } = taken;
        let ghost before = rows@;
        assert(holds(model, before[at as int]@));
        rows.remove(at);
        let ghost code = short_code@;
        let ghost shrunk = model.remove(code);
        proof {
            assert forall|i: int| 0 <= i < rows@.len() implies holds(
                shrunk,
                #[trigger] rows@[i]@,
            ) by {
                let k = if i < at { i } else { i + 1 };
                assert(rows@[i] == before[k]);
                assert(holds(model, before[k]@));
                if k < at {
                    assert(before[k]@.short_code != before[at as int]@.short_code);
                } else {
                    assert(before[at as int]@.short_code != before[k]@.short_code);
                }
            }
            assert forall|known: Seq<char>| #[trigger] shrunk.contains_key(known) implies exists|
                i: int,
            | 0 <= i < rows@.len() && #[trigger] rows@[i]@.short_code == known by {
                assert(model.contains_key(known));
                let k = choose|k: int|
                    0 <= k < before.len() && #[trigger] before[k]@.short_code == known;
                let i = if k < at { k } else { k - 1 };
                assert(rows@[i] == before[k]);
            }
            assert forall|i: int, j: int| 0 <= i < j < rows@.len() implies
                #[trigger] rows@[i]@.short_code != #[trigger] rows@[j]@.short_code by {
                let ki = if i < at { i } else { i + 1 };
                let kj = if j < at { j } else { j + 1 };
                assert(rows@[i] == before[ki]);
                assert(rows@[j] == before[kj]);
                assert(before[ki]@.short_code != before[kj]@.short_code);
            }
        }
        *self = InMemoryUrlRepository { rows, next_id, model: Ghost(shrunk) };
        Ok(true)
    }

    fn get_stats(&self, short_code: &str) -> (r: Result<Option<TinyUrl>, AppError>) {
        self.find_by_short_code(short_code)
    }

    fn code_exists(&self, short_code: &str) -> (r: Result<bool, AppError>) {
        proof {
            use_type_invariant(self);
        }
        let wanted = short_code.to_owned();
        match self.position(&wanted) {
            Some(i) => {
                assert(holds(self.model@, self.rows@[i as int]@));
                Ok(true)
            },
            None => Ok(false),
        }
    }
}

} // verus!
