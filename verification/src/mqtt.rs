use vstd::prelude::*;
use crate::db::InsertCarData;

verus! {

/// The id of the barrier through which cars enter the parking lot.
pub const ENTRY_GATE_ID: i32 = 0;

/// The kind of request that a message on a subscribed topic carries.
#[derive(Debug, Clone, Copy, PartialEq, Eq, Structural)]
pub enum RequestKind {
    /// A licence-plate recognition request (topic ending in "ocr").
    Ocr,
    /// A parking-fee request (topic ending in "feeInfo").
    FeeInfo,
}

/// The last '/'-separated level of a topic: what follows its last '/', or
/// the whole topic where it holds none.
pub open spec fn last_topic_level(topic: Seq<char>) -> Seq<char>
    decreases topic.len(),
{
    if topic.len() == 0 {
        topic
    } else if topic.last() == '/' {
        Seq::empty()
    } else {
        last_topic_level(topic.drop_last()).push(topic.last())
    }
}

/// The request that a topic announces, by its last level.
pub open spec fn topic_request_kind(topic: Seq<char>) -> Option<RequestKind> {
    let level = last_topic_level(topic);
    if level == "ocr"@ {
        Some(RequestKind::Ocr)
    } else if level == "feeInfo"@ {
        Some(RequestKind::FeeInfo)
    } else {
        None
    }
}

/// The request that a message on `topic` carries: its last level "ocr" or
/// "feeInfo"; any other topic carries none.
pub fn request_kind(topic: &str) -> (r: Option<RequestKind>)
    ensures
        r == topic_request_kind(topic@),
{
    let n = topic.unicode_len();
    let mut start: usize = 0;
    let mut i: usize = 0;
    while i < n
        invariant
            n == topic@.len(),
            start <= i <= n,
            last_topic_level(topic@.subrange(0, i as int)) == topic@.subrange(start as int, i as int),
        decreases n - i,
    {
        let c = topic.get_char(i);
        proof {
            assert(topic@.subrange(0, i + 1).drop_last() =~= topic@.subrange(0, i as int));
            assert(topic@.subrange(0, i + 1).last() == c);
        }
        if c == '/' {
            start = i + 1;
            proof {
                assert(topic@.subrange(start as int, i + 1) =~= Seq::<char>::empty());
            }
        } else {
            proof {
                assert(topic@.subrange(start as int, i + 1) =~= topic@.subrange(start as int, i as int).push(c));
            }
        }
        i = i + 1;
    }
    proof {
        assert(topic@.subrange(0, n as int) =~= topic@);
    }
    let level = String::from_str(topic.substring_char(start, n));
    if level == String::from_str("ocr") {
        Some(RequestKind::Ocr)
    } else if level == String::from_str("feeInfo") {
        Some(RequestKind::FeeInfo)
    } else {
        None
    }
}

/// `level` holds no '/'.
pub open spec fn is_single_level(level: Seq<char>) -> bool {
    forall|i: int| 0 <= i < level.len() ==> level[i] != '/'
}

proof fn lemma_last_level_after_separator(prefix: Seq<char>, level: Seq<char>)
    requires
        is_single_level(level),
    ensures
        last_topic_level(prefix + seq!['/'] + level) == level,
        last_topic_level(level) == level,
    decreases level.len(),
{
    let t = prefix + seq!['/'] + level;
    if level.len() == 0 {
        assert(t.last() == '/');
        assert(level =~= Seq::<char>::empty());
    } else {
        let d = level.drop_last();
        assert(is_single_level(d)) by {
            assert forall|i: int| 0 <= i < d.len() implies d[i] != '/' by {
                assert(d[i] == level[i]);
            }
        }
        lemma_last_level_after_separator(prefix, d);
        assert(t.drop_last() =~= prefix + seq!['/'] + d);
        assert(t.last() == level.last());
        assert(level.last() != '/');
        assert(d.push(level.last()) =~= level);
    }
}

/// A request is routed by the last level of its topic alone: whatever
/// levels come before it, the request kind is that of the last level.
pub proof fn law_routing_ignores_topic_prefix(prefix: Seq<char>, level: Seq<char>)
    requires
        is_single_level(level),
    ensures
        topic_request_kind(prefix + seq!['/'] + level) == topic_request_kind(level),
{
    lemma_last_level_after_separator(prefix, level);
}

/// The database record for a recognised plate: a car entered where the
/// recognition succeeded at the entrance barrier, at the time of the request.
pub fn entry_car_data(gate_id: i32, success: bool, license_plate: &String, request_timestamp: u64) -> (r: Option<InsertCarData>)
    ensures
        r is Some <==> gate_id == ENTRY_GATE_ID && success,
        r matches Some(data) ==> data.license_plate@ == license_plate@ && data.entry_time == request_timestamp as i64,
{
    if gate_id == ENTRY_GATE_ID && success {
        Some(InsertCarData { license_plate: license_plate.clone(), entry_time: request_timestamp as i64 })
    } else {
        None
    }
}

/// Sets up the MQTT client; there is nothing to set up yet.
pub fn init_mqtt_clinet() {
}

} // verus!
