//! The timeline listing: which query reads a page of events, and that a
//! page of zero or fewer events reads nothing.

use vstd::prelude::*;

use crate::services::{params_view, SqlParam};

verus! {

/// The query of a page of the timeline of one network, newest first.
pub open spec fn network_page_sql() -> Seq<char> {
    "SELECT id, network_id, device_id, event_type, severity, message, data_json, created_at FROM events WHERE network_id = ?1 ORDER BY created_at DESC, id DESC LIMIT ?2 OFFSET ?3"@
}

/// The query of a page of the whole timeline, newest first.
pub open spec fn global_page_sql() -> Seq<char> {
    "SELECT id, network_id, device_id, event_type, severity, message, data_json, created_at FROM events ORDER BY created_at DESC, id DESC LIMIT ?1 OFFSET ?2"@
}

/// The query and bound values of a page of `limit` events from `offset`, of
/// network `network_id` or of all networks; `None` when `limit` is zero or
/// less, since such a page is empty.
pub fn events_page_query(network_id: Option<&str>, limit: i64, offset: i64) -> (r: Option<
    (String, Vec<SqlParam>),
>)
    ensures
        r is None <==> limit <= 0,
        r matches Some(q) ==> match network_id {
            Some(n) => q.0@ == network_page_sql() && params_view(q.1@) == seq![
                (true, n@, 0int),
                (false, Seq::<char>::empty(), limit as int),
                (false, Seq::<char>::empty(), offset as int),
            ],
            None => q.0@ == global_page_sql() && params_view(q.1@) == seq![
                (false, Seq::<char>::empty(), limit as int),
                (false, Seq::<char>::empty(), offset as int),
            ],
        },
{
    if limit <= 0 {
        return None;
    }
    let mut params: Vec<SqlParam> = Vec::new();
    let sql = match network_id {
        Some(n) => {
            params.push(SqlParam::Text(n.to_string()));
            "SELECT id, network_id, device_id, event_type, severity, message, data_json, created_at FROM events WHERE network_id = ?1 ORDER BY created_at DESC, id DESC LIMIT ?2 OFFSET ?3".to_string()
        },
        None => {
            "SELECT id, network_id, device_id, event_type, severity, message, data_json, created_at FROM events ORDER BY created_at DESC, id DESC LIMIT ?1 OFFSET ?2".to_string()
        },
    };
    params.push(SqlParam::Int(limit));
    params.push(SqlParam::Int(offset));
    proof {
        assert(params_view(params@) =~= match network_id {
            Some(n) => seq![
                (true, n@, 0int),
                (false, Seq::<char>::empty(), limit as int),
                (false, Seq::<char>::empty(), offset as int),
            ],
            None => seq![
                (false, Seq::<char>::empty(), limit as int),
                (false, Seq::<char>::empty(), offset as int),
            ],
        });
    }
    Some((sql, params))
}

} // verus!
