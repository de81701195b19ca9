//! How the collector is doing, and how it answers when asked.
use vstd::prelude::*;

use crate::json;
use crate::json::{Scalar, ScalarData};
use crate::text;

verus! {

/// What the collector counts.
#[derive(Debug)]
pub struct CollectorStats {
    pub ingress_ready: bool,
    pub ui_ready: bool,
    pub ingress_connections: u64,
    pub ui_clients: u64,
    pub samples_rx: u64,
    pub ui_drop: u64,
    pub db_drop: u64,
    pub db_write_fail: u64,
    pub last_db_error: Option<String>,
}

impl Default for CollectorStats {
    fn default() -> (r: Self)
        ensures
            !r.ingress_ready,
            !r.ui_ready,
            r.ingress_connections == 0,
            r.ui_clients == 0,
            r.samples_rx == 0,
            r.ui_drop == 0,
            r.db_drop == 0,
            r.db_write_fail == 0,
            r.last_db_error is None,
    {
        CollectorStats {
            ingress_ready: false,
            ui_ready: false,
            ingress_connections: 0,
            ui_clients: 0,
            samples_rx: 0,
            ui_drop: 0,
            db_drop: 0,
            db_write_fail: 0,
            last_db_error: None,
        }
    }
}

/// Remembers why the last write to the database failed.
pub fn record_db_error(stats: &mut CollectorStats, message: String)
    ensures
        final(stats).last_db_error is Some,
        final(stats).last_db_error->0@ == message@,
        *final(stats) == (CollectorStats {
            last_db_error: final(stats).last_db_error,
            ..*old(stats)
        }),
{
    stats.last_db_error = Some(message);
}

/// What the health report says, by name.
pub open spec fn report(stats: CollectorStats) -> Map<Seq<char>, ScalarData> {
    json::no_members().insert("ingress_ready"@, ScalarData::Flag(stats.ingress_ready)).insert(
        "ui_ready"@,
        ScalarData::Flag(stats.ui_ready),
    ).insert("ingress_connections"@, ScalarData::Count(stats.ingress_connections)).insert(
        "ui_clients"@,
        ScalarData::Count(stats.ui_clients),
    ).insert("samples_rx"@, ScalarData::Count(stats.samples_rx)).insert(
        "ui_drop"@,
        ScalarData::Count(stats.ui_drop),
    ).insert("db_drop"@, ScalarData::Count(stats.db_drop)).insert(
        "db_write_fail"@,
        ScalarData::Count(stats.db_write_fail),
    ).insert(
        "last_db_error"@,
        match stats.last_db_error {
            Some(error) => ScalarData::Text(error@),
            None => ScalarData::Nothing,
        },
    )
}

/// The health report as JSON.
pub fn health_json(stats: &CollectorStats) -> (r: String)
    ensures
        r@ == json::object_text(report(*stats)),
{
    let mut object = json::new_object();
    json::set_member(
        &mut object,
        text::owned("ingress_ready"),
        Scalar::Flag(stats.ingress_ready),
    );
    json::set_member(&mut object, text::owned("ui_ready"), Scalar::Flag(stats.ui_ready));
    json::set_member(
        &mut object,
        text::owned("ingress_connections"),
        Scalar::Count(stats.ingress_connections),
    );
    json::set_member(&mut object, text::owned("ui_clients"), Scalar::Count(stats.ui_clients));
    json::set_member(&mut object, text::owned("samples_rx"), Scalar::Count(stats.samples_rx));
    json::set_member(&mut object, text::owned("ui_drop"), Scalar::Count(stats.ui_drop));
    json::set_member(&mut object, text::owned("db_drop"), Scalar::Count(stats.db_drop));
    json::set_member(
        &mut object,
        text::owned("db_write_fail"),
        Scalar::Count(stats.db_write_fail),
    );
    json::set_member(
        &mut object,
        text::owned("last_db_error"),
        match &stats.last_db_error {
            Some(error) => Scalar::Text(text::owned(error.as_str())),
            None => Scalar::Nothing,
        },
    );
    json::render_object(object)
}

/// The bytes of `GET /ready`.
pub open spec fn ready_request() -> Seq<u8> {
    seq![0x47u8, 0x45u8, 0x54u8, 0x20u8, 0x2Fu8, 0x72u8, 0x65u8, 0x61u8, 0x64u8, 0x79u8]
}

/// Whether a request asks for readiness: its first line begins with `GET /ready`.
pub open spec fn asks_ready(request: Seq<u8>) -> bool {
    request.len() >= 10 && request.take(10) == ready_request()
}

fn is_ready_request(request: &[u8]) -> (r: bool)
    ensures
        r == asks_ready(request@),
{
    let wanted: [u8; 10] = [0x47, 0x45, 0x54, 0x20, 0x2F, 0x72, 0x65, 0x61, 0x64, 0x79];
    proof {
        assert(wanted@ =~= ready_request());
    }
    if request.len() < 10 {
        return false;
    }
    let mut i: usize = 0;
    while i < 10
        invariant
            i <= 10,
            wanted@ == ready_request(),
            request@.len() >= 10,
            forall|k: int| 0 <= k < i ==> request@[k] == ready_request()[k],
        decreases 10 - i,
    {
        if request[i] != wanted[i] {
            proof {
                assert(request@.take(10)[i as int] != ready_request()[i as int]);
            }
            return false;
        }
        i = i + 1;
    }
    proof {
        assert(request@.take(10) =~= ready_request());
    }
    true
}

/// An answer with this status and JSON body.
pub open spec fn http_response(code: Seq<char>, body: Seq<char>) -> Seq<char> {
    "HTTP/1.1 "@ + code + "\r\nContent-Type: application/json\r\nContent-Length: "@ + text::decimal(
        vstd::utf8::encode_utf8(body).len(),
    ) + "\r\nConnection: close\r\n\r\n"@ + body
}

/// The answer with this status and JSON body.
pub fn respond(code: &str, body: &str) -> (r: String)
    ensures
        r@ == http_response(code@, body@),
{
    let mut r = text::owned("HTTP/1.1 ");
    text::push_text(&mut r, code);
    text::push_text(&mut r, "\r\nContent-Type: application/json\r\nContent-Length: ");
    text::push_decimal(&mut r, body.as_bytes().len() as u64);
    text::push_text(&mut r, "\r\nConnection: close\r\n\r\n");
    text::push_text(&mut r, body);
    r
}

/// The answer to a request: whether the collector is ready, or the health report.
pub fn answer(request: &[u8], stats: &CollectorStats) -> (r: String)
    ensures
        r@ == if asks_ready(request@) {
            if stats.ingress_ready && stats.ui_ready {
                http_response("200 OK"@, "{\"ready\":true}"@)
            } else {
                http_response("503 Service Unavailable"@, "{\"ready\":false}"@)
            }
        } else {
            http_response("200 OK"@, json::object_text(report(*stats)))
        },
{
    if is_ready_request(request) {
        if stats.ingress_ready && stats.ui_ready {
            respond("200 OK", "{\"ready\":true}")
        } else {
            respond("503 Service Unavailable", "{\"ready\":false}")
        }
    } else {
        respond("200 OK", health_json(stats).as_str())
    }
}

/// The report holds each count under its own name, and the last error of the database or
/// nothing; it holds nothing else.
pub proof fn law_report(stats: CollectorStats, key: Seq<char>)
    ensures
        ({
            let r = report(stats);
            &&& r["ingress_ready"@] == ScalarData::Flag(stats.ingress_ready)
            &&& r["ui_ready"@] == ScalarData::Flag(stats.ui_ready)
            &&& r["ingress_connections"@] == ScalarData::Count(stats.ingress_connections)
            &&& r["ui_clients"@] == ScalarData::Count(stats.ui_clients)
            &&& r["samples_rx"@] == ScalarData::Count(stats.samples_rx)
            &&& r["ui_drop"@] == ScalarData::Count(stats.ui_drop)
            &&& r["db_drop"@] == ScalarData::Count(stats.db_drop)
            &&& r["db_write_fail"@] == ScalarData::Count(stats.db_write_fail)
            &&& match stats.last_db_error {
                Some(error) => r["last_db_error"@] == ScalarData::Text(error@),
                None => r["last_db_error"@] == ScalarData::Nothing,
            }
            &&& r.contains_key(key) <==> key == "ingress_ready"@ || key == "ui_ready"@ || key
                == "ingress_connections"@ || key == "ui_clients"@ || key == "samples_rx"@ || key
                == "ui_drop"@ || key == "db_drop"@ || key == "db_write_fail"@ || key
                == "last_db_error"@
        }),
{
    reveal_strlit("ingress_ready");
    reveal_strlit("ui_ready");
    reveal_strlit("ingress_connections");
    reveal_strlit("ui_clients");
    reveal_strlit("samples_rx");
    reveal_strlit("ui_drop");
    reveal_strlit("db_drop");
    reveal_strlit("db_write_fail");
    reveal_strlit("last_db_error");
    assert("ingress_ready"@.len() == 13 && "ui_ready"@.len() == 8 && "ingress_connections"@.len()
        == 19 && "ui_clients"@.len() == 10 && "samples_rx"@.len() == 10 && "ui_drop"@.len() == 7
        && "db_drop"@.len() == 7 && "db_write_fail"@.len() == 13 && "last_db_error"@.len() == 13);
    assert("ingress_ready"@[0] == 'i' && "db_write_fail"@[0] == 'd' && "last_db_error"@[0] == 'l'
        && "ui_clients"@[0] == 'u' && "samples_rx"@[0] == 's' && "ui_drop"@[0] == 'u'
        && "db_drop"@[0] == 'd');
}

/// A request asks whether the collector is ready where it begins with "GET /ready", character
/// by character, whatever follows.
pub proof fn law_asks_ready(request: Seq<u8>)
    ensures
        asks_ready(request) <==> request.len() >= 10 && forall|i: int|
            0 <= i < 10 ==> (#[trigger] request[i]) as int == "GET /ready"@[i] as int,
{
    reveal_strlit("GET /ready");
    let asked = ready_request();
    assert(forall|i: int| 0 <= i < 10 ==> (#[trigger] asked[i]) as int == "GET /ready"@[i] as int);
    if request.len() >= 10 && forall|i: int|
        0 <= i < 10 ==> (#[trigger] request[i]) as int == "GET /ready"@[i] as int {
        assert forall|i: int| 0 <= i < 10 implies request.take(10)[i] == asked[i] by {
            assert(request[i] as int == "GET /ready"@[i] as int);
        }
        assert(request.take(10) =~= asked);
    }
    if asks_ready(request) {
        assert forall|i: int| 0 <= i < 10 implies (#[trigger] request[i]) as int
            == "GET /ready"@[i] as int by {
            assert(request[i] == request.take(10)[i]);
        }
    }
}

/// An answer begins with the version and the code, ends with the body, and tells the body's
/// length in bytes between them.
pub proof fn law_http_response(code: Seq<char>, body: Seq<char>)
    ensures
        ({
            let r = http_response(code, body);
            let head = "HTTP/1.1 "@ + code
                + "\r\nContent-Type: application/json\r\nContent-Length: "@ + text::decimal(
                vstd::utf8::encode_utf8(body).len(),
            ) + "\r\nConnection: close\r\n\r\n"@;
            &&& r.len() == head.len() + body.len()
            &&& r.take(head.len() as int) == head
            &&& r.skip(head.len() as int) == body
        }),
{
    let r = http_response(code, body);
    let head = "HTTP/1.1 "@ + code + "\r\nContent-Type: application/json\r\nContent-Length: "@
        + text::decimal(vstd::utf8::encode_utf8(body).len())
        + "\r\nConnection: close\r\n\r\n"@;
    assert(r.take(head.len() as int) =~= head);
    assert(r.skip(head.len() as int) =~= body);
}

} // verus!
