//! When a cache and a durable store agree, and which changes keep them so.

use vstd::prelude::*;
use crate::services::codes::is_counter_key;
use crate::traits::repository::{none_for, Records};
use crate::traits::service::Entries;

verus! {

/// Whether every entry of the cache is a click counter or holds the long URL
/// of the record with its key.
pub open spec fn cache_follows(cached: Entries, records: Records) -> bool {
    forall|key: Seq<char>| #[trigger]
        cached.contains_key(key) ==> is_counter_key(key) || (records.contains_key(key)
            && cached[key] == records[key].long_url)
}

/// Whether every record stands under its own short code, and no short code
/// is a counter key.
pub open spec fn well_keyed(records: Records) -> bool {
    forall|code: Seq<char>| #[trigger]
        records.contains_key(code) ==> records[code].short_code == code && !is_counter_key(code)
}

/// Whether no two records are for the same long URL.
pub open spec fn one_record_per_url(records: Records) -> bool {
    forall|a: Seq<char>, b: Seq<char>|
        #![trigger records.contains_key(a), records.contains_key(b)]
        records.contains_key(a) && records.contains_key(b) && records[a].long_url
            == records[b].long_url ==> a == b
}

/// Whether cache and durable store agree.
pub open spec fn agree(cached: Entries, records: Records) -> bool {
    &&& cache_follows(cached, records)
    &&& well_keyed(records)
    &&& one_record_per_url(records)
}

/// A cache that only loses entries goes on following the records.
pub proof fn lemma_shrunk_cache_follows(before: Entries, after: Entries, records: Records)
    requires
        cache_follows(before, records),
        after.submap_of(before),
    ensures
        cache_follows(after, records),
{
    assert forall|key: Seq<char>| #[trigger] after.contains_key(key) implies is_counter_key(key)
        || (records.contains_key(key) && after[key] == records[key].long_url) by {
        assert(before.contains_key(key));
        assert(before[key] == after[key]);
    }
}

/// A cache that changes under one key at most goes on following the records
/// where that key is afterwards free, a counter key, or holds the long URL of
/// the record with that key.
pub proof fn lemma_changed_cache_follows(
    before: Entries,
    after: Entries,
    records: Records,
    changed: Seq<char>,
)
    requires
        cache_follows(before, records),
        after.remove(changed).submap_of(before),
        after.contains_key(changed) ==> is_counter_key(changed) || (records.contains_key(changed)
            && after[changed] == records[changed].long_url),
    ensures
        cache_follows(after, records),
{
    assert forall|key: Seq<char>| #[trigger] after.contains_key(key) implies is_counter_key(key)
        || (records.contains_key(key) && after[key] == records[key].long_url) by {
        if key != changed {
            assert(after.remove(changed).contains_key(key));
            assert(before.contains_key(key));
            assert(before[key] == after.remove(changed)[key]);
        }
    }
}

/// Cache and store go on agreeing where the record of one code goes, if
/// there was one, and the cache holds nothing under that code afterwards and
/// has otherwise only lost entries.
pub proof fn lemma_agree_without(
    cached: Entries,
    records: Records,
    after: Entries,
    code: Seq<char>,
)
    requires
        agree(cached, records),
        after.submap_of(cached.remove(code)),
    ensures
        agree(after, records.remove(code)),
{
    let fewer = records.remove(code);
    assert forall|key: Seq<char>| #[trigger] after.contains_key(key) implies is_counter_key(key)
        || (fewer.contains_key(key) && after[key] == fewer[key].long_url) by {
        assert(cached.remove(code).contains_key(key));
        assert(cached.contains_key(key));
        assert(cached[key] == after[key]);
    }
    assert forall|a: Seq<char>, b: Seq<char>|
        fewer.contains_key(a) && fewer.contains_key(b) && fewer[a].long_url
            == fewer[b].long_url implies a == b by {
        assert(records.contains_key(a) && records.contains_key(b));
    }
}

/// Cache and store go on agreeing where one record is written anew under its
/// code with the long URL it had.
pub proof fn lemma_agree_rewritten(
    cached: Entries,
    records: Records,
    after: Records,
    code: Seq<char>,
)
    requires
        agree(cached, records),
        records.contains_key(code),
        after.contains_key(code),
        after == records.insert(code, after[code]),
        after[code].short_code == code,
        after[code].long_url == records[code].long_url,
    ensures
        agree(cached, after),
{
    assert forall|key: Seq<char>| #[trigger] cached.contains_key(key) implies is_counter_key(key)
        || (after.contains_key(key) && cached[key] == after[key].long_url) by {
        if !is_counter_key(key) {
            assert(records.contains_key(key));
        }
    }
    assert forall|a: Seq<char>, b: Seq<char>|
        after.contains_key(a) && after.contains_key(b) && after[a].long_url
            == after[b].long_url implies a == b by {
        assert(records.contains_key(a) && records.contains_key(b));
        assert(after[a].long_url == records[a].long_url);
        assert(after[b].long_url == records[b].long_url);
    }
    assert forall|c: Seq<char>| #[trigger] after.contains_key(c) implies after[c].short_code == c
        && !is_counter_key(c) by {
        assert(records.contains_key(c));
    }
}

/// Cache and store go on agreeing where one record is added under a code
/// that was free and is no counter key, for a long URL that had no record,
/// and the cache gains at most that URL under that code.
pub proof fn lemma_agree_with(
    cached: Entries,
    records: Records,
    after_cached: Entries,
    after: Records,
    code: Seq<char>,
)
    requires
        agree(cached, records),
        !records.contains_key(code),
        !is_counter_key(code),
        after.contains_key(code),
        after == records.insert(code, after[code]),
        after[code].short_code == code,
        none_for(records, after[code].long_url),
        after_cached == cached || after_cached == cached.insert(code, after[code].long_url),
    ensures
        agree(after_cached, after),
{
    assert forall|key: Seq<char>| #[trigger] after_cached.contains_key(key) implies is_counter_key(
        key,
    ) || (after.contains_key(key) && after_cached[key] == after[key].long_url) by {
        if key != code {
            assert(cached.contains_key(key));
        } else if cached.contains_key(key) {
            assert(records.contains_key(key));
        }
    }
    assert forall|a: Seq<char>, b: Seq<char>|
        after.contains_key(a) && after.contains_key(b) && after[a].long_url
            == after[b].long_url implies a == b by {
        if a != code {
            assert(records.contains_key(a));
        }
        if b != code {
            assert(records.contains_key(b));
        }
    }
    assert forall|c: Seq<char>| #[trigger] after.contains_key(c) implies after[c].short_code == c
        && !is_counter_key(c) by {
        if c != code {
            assert(records.contains_key(c));
        }
    }
}

} // verus!
