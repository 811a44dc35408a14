use irma_chat::chat_socket::{
    frame_message, rejection, Admission, ChatClient, ChatMessage, PeerAddr, PeerMap,
};
use irma_chat::errors::Error;
use irma_chat::jwt::encode;
use irma_chat::session_jwt::SessionJwt;
use jsonwebtoken::errors::ErrorKind;

const KEY: &str = "an application secret";

fn peer(n: u16) -> PeerAddr {
    PeerAddr::V4 { ip: 0x7f00_0001, port: 40_000 + n }
}

fn now() -> i64 {
    std::time::SystemTime::now().duration_since(std::time::UNIX_EPOCH).unwrap().as_secs() as i64
}

const REJECTION: &str = r#"{"error":"Authentication error"}"#;

/// What a refused connection is told, and why it was refused.
fn refused(admission: Admission) -> (String, Error) {
    match admission {
        Admission::Rejected { notice, reason } => (notice, reason),
        Admission::Accepted => panic!("accepted"),
    }
}

fn token_for(sub: &str, exp: i64) -> String {
    let claims = SessionJwt { exp, sub: sub.to_string() };
    encode(KEY.to_string(), &claims.claims_json()).unwrap()
}

#[test]
fn test_chat() {
    let mut registry = PeerMap::new();
    let addr = peer(1);
    let jwt = token_for("Foo Bar", now() + 300);

    let before = now();
    let admission = registry.accept(addr, KEY, &jwt);
    assert!(matches!(admission, Admission::Accepted));
    assert_eq!(registry.relay(addr, "Hello World!"), true);
    let after = now();

    let received = registry.take_outbound(addr);
    assert_eq!(received.len(), 2);
    let times: Vec<i64> = (before..=after).collect();
    assert!(times.iter().any(|time| received[0]
        == format!("{{\"user\":\"Foo Bar\",\"time\":{},\"its_me\":true,\"msg\":null}}", time)));
    assert!(times.iter().any(|time| received[1]
        == format!(
            "{{\"user\":\"Foo Bar\",\"time\":{},\"its_me\":true,\"msg\":\"Hello World!\"}}",
            time
        )));

    assert!(registry.leave(addr));
    assert_eq!(registry.len(), 0);
}

#[test]
fn a_lone_peer_gets_exactly_one_join_notice() {
    let mut registry = PeerMap::new();
    let credential = Ok(SessionJwt { exp: 2_000_000_000, sub: "Foo Bar".to_string() });
    let admission = registry.admit_at(peer(1), credential, 1_700_000_000);
    assert!(matches!(admission, Admission::Accepted));
    assert_eq!(
        registry.take_outbound(peer(1)),
        vec![r#"{"user":"Foo Bar","time":1700000000,"its_me":true,"msg":null}"#.to_string()]
    );
    assert_eq!(registry.relay_at(peer(1), "Hello World!", 1_700_000_001), true);
    assert_eq!(
        registry.take_outbound(peer(1)),
        vec![r#"{"user":"Foo Bar","time":1700000001,"its_me":true,"msg":"Hello World!"}"#.to_string()]
    );
    assert!(registry.take_outbound(peer(1)).is_empty());
}

#[test]
fn every_peer_is_told_and_only_the_sender_is_marked() {
    let mut registry = PeerMap::new();
    registry.join_at(peer(1), "Ann".to_string(), 10);
    registry.join_at(peer(2), "Bob".to_string(), 20);
    registry.join_at(peer(3), "Cy".to_string(), 30);
    assert_eq!(registry.len(), 3);

    assert_eq!(
        registry.take_outbound(peer(1)),
        vec![
            r#"{"user":"Ann","time":10,"its_me":true,"msg":null}"#.to_string(),
            r#"{"user":"Bob","time":20,"its_me":false,"msg":null}"#.to_string(),
            r#"{"user":"Cy","time":30,"its_me":false,"msg":null}"#.to_string(),
        ]
    );
    assert_eq!(
        registry.take_outbound(peer(2)),
        vec![
            r#"{"user":"Bob","time":20,"its_me":true,"msg":null}"#.to_string(),
            r#"{"user":"Cy","time":30,"its_me":false,"msg":null}"#.to_string(),
        ]
    );
    assert_eq!(
        registry.take_outbound(peer(3)),
        vec![r#"{"user":"Cy","time":30,"its_me":true,"msg":null}"#.to_string()]
    );

    assert!(registry.relay_at(peer(2), "hi", 40));
    assert_eq!(
        registry.take_outbound(peer(1)),
        vec![r#"{"user":"Bob","time":40,"its_me":false,"msg":"hi"}"#.to_string()]
    );
    assert_eq!(
        registry.take_outbound(peer(2)),
        vec![r#"{"user":"Bob","time":40,"its_me":true,"msg":"hi"}"#.to_string()]
    );
    assert_eq!(
        registry.take_outbound(peer(3)),
        vec![r#"{"user":"Bob","time":40,"its_me":false,"msg":"hi"}"#.to_string()]
    );
}

#[test]
fn frames_of_one_sender_keep_their_order() {
    let mut registry = PeerMap::new();
    registry.join_at(peer(1), "Ann".to_string(), 1);
    registry.join_at(peer(2), "Bob".to_string(), 2);
    registry.take_outbound(peer(2));
    for (n, text) in ["one", "two", "three"].iter().enumerate() {
        registry.relay_at(peer(1), text, 10 + n as i64);
    }
    assert_eq!(
        registry.take_outbound(peer(2)),
        vec![
            r#"{"user":"Ann","time":10,"its_me":false,"msg":"one"}"#.to_string(),
            r#"{"user":"Ann","time":11,"its_me":false,"msg":"two"}"#.to_string(),
            r#"{"user":"Ann","time":12,"its_me":false,"msg":"three"}"#.to_string(),
        ]
    );
}

#[test]
fn an_invalid_token_is_refused_and_leaves_the_registry_untouched() {
    let mut registry = PeerMap::new();
    registry.join_at(peer(1), "Ann".to_string(), 1);
    registry.take_outbound(peer(1));

    let (notice, reason) = refused(registry.accept(peer(2), KEY, "not a token"));
    assert_eq!(notice, REJECTION);
    assert!(matches!(&reason, Error::JWTError(e) if matches!(e.kind(), ErrorKind::InvalidToken)));
    assert_eq!(registry.len(), 1);
    assert!(!registry.contains(peer(2)));

    // what the refused connection sends reaches nobody
    assert_eq!(registry.relay(peer(2), "let me in"), false);
    assert_eq!(registry.relay_at(peer(2), "let me in", 5), false);
    assert!(registry.take_outbound(peer(1)).is_empty());
    assert!(registry.take_outbound(peer(2)).is_empty());
    assert!(!registry.leave(peer(2)));
    assert_eq!(registry.len(), 1);
}

#[test]
fn an_expired_token_is_refused() {
    let mut registry = PeerMap::new();
    let expired = token_for("Foo Bar", now() - 300);
    let (notice, reason) = refused(registry.accept(peer(1), KEY, &expired));
    assert_eq!(notice, REJECTION);
    assert!(
        matches!(&reason, Error::JWTError(e) if matches!(e.kind(), ErrorKind::ExpiredSignature))
    );
    assert_eq!(registry.len(), 0);
}

#[test]
fn a_token_under_another_secret_is_refused() {
    let mut registry = PeerMap::new();
    let claims = SessionJwt { exp: now() + 300, sub: "Foo Bar".to_string() };
    let forged = encode("another secret".to_string(), &claims.claims_json()).unwrap();
    let (notice, reason) = refused(registry.accept(peer(1), KEY, &forged));
    assert_eq!(notice, REJECTION);
    assert!(
        matches!(&reason, Error::JWTError(e) if matches!(e.kind(), ErrorKind::InvalidSignature))
    );
    assert!(!registry.contains(peer(1)));
}

#[test]
fn a_token_without_a_subject_is_refused() {
    let mut registry = PeerMap::new();
    let exp = now() + 300;
    let token = encode(KEY.to_string(), &format!("{{\"exp\":{}}}", exp)).unwrap();
    let (notice, reason) = refused(registry.accept(peer(1), KEY, &token));
    assert_eq!(notice, REJECTION);
    assert!(matches!(reason, Error::InvalidJWT));
    assert_eq!(registry.len(), 0);
}

#[test]
fn admit_at_refuses_on_any_error() {
    let mut registry = PeerMap::new();
    let (notice, reason) = refused(registry.admit_at(peer(1), Err(Error::InvalidJWT), 1));
    assert_eq!(notice, REJECTION);
    assert!(matches!(reason, Error::InvalidJWT));
    let parse = Error::ParseError("a \"reason\"".to_string());
    let (notice, reason) = refused(registry.admit_at(peer(1), Err(parse), 1));
    assert_eq!(notice, REJECTION);
    assert!(matches!(reason, Error::ParseError(text) if text == "a \"reason\""));
    assert_eq!(registry.len(), 0);
    assert_eq!(rejection(), REJECTION);
}

#[test]
fn the_rejection_is_the_same_whatever_the_reason() {
    let mut registry = PeerMap::new();
    let expired = token_for("Foo Bar", now() - 300);
    let wrong_algorithm = {
        let header = jsonwebtoken::Header::new(jsonwebtoken::Algorithm::HS512);
        let claims: serde_json::Value =
            serde_json::from_str(&format!("{{\"exp\":{},\"sub\":\"x\"}}", now() + 300)).unwrap();
        let key = jsonwebtoken::EncodingKey::from_secret(KEY.as_bytes());
        jsonwebtoken::encode(&header, &claims, &key).unwrap()
    };
    let mut tampered = token_for("Foo Bar", now() + 300);
    tampered.push('x');
    let mut notices = Vec::new();
    for token in [expired.as_str(), wrong_algorithm.as_str(), tampered.as_str(), "", "a.b.c"] {
        let (notice, _) = refused(registry.accept(peer(1), KEY, token));
        notices.push(notice);
    }
    assert!(notices.iter().all(|notice| notice == REJECTION));
    // the notice is JSON with the one member
    let value: serde_json::Value = serde_json::from_str(REJECTION).unwrap();
    assert_eq!(value["error"].as_str(), Some("Authentication error"));
    assert_eq!(value.as_object().unwrap().len(), 1);
    assert_eq!(registry.len(), 0);
}

#[test]
fn registry_size_is_the_number_of_live_peers() {
    let mut registry = PeerMap::new();
    assert_eq!(registry.len(), 0);
    let mut live = std::collections::BTreeSet::new();
    let mut seed: u64 = 11;
    for step in 0..2_000 {
        seed = seed.wrapping_mul(6364136223846793005).wrapping_add(1442695040888963407);
        let n = ((seed >> 33) % 8) as u16;
        match (seed >> 40) % 4 {
            0 => {
                registry.join_at(peer(n), format!("user {}", n), step);
                live.insert(n);
            }
            1 => {
                assert_eq!(registry.leave(peer(n)), live.remove(&n));
            }
            2 => {
                assert_eq!(registry.relay_at(peer(n), "text", step), live.contains(&n));
            }
            _ => {
                let admission = registry.admit_at(peer(n), Err(Error::InvalidJWT), step);
                assert!(matches!(admission, Admission::Rejected { .. }));
            }
        }
        assert_eq!(registry.len(), live.len());
        for m in 0..8 {
            assert_eq!(registry.contains(peer(m)), live.contains(&m));
        }
    }
}

#[test]
fn joining_again_under_an_address_starts_afresh() {
    let mut registry = PeerMap::new();
    registry.join_at(peer(1), "Ann".to_string(), 1);
    registry.relay_at(peer(1), "old", 2);
    registry.join_at(peer(1), "Bob".to_string(), 3);
    assert_eq!(registry.len(), 1);
    assert_eq!(registry.get(peer(1)).unwrap().user(), "Bob");
    assert_eq!(registry.get(peer(1)).unwrap().queued(), 1);
    assert_eq!(
        registry.take_outbound(peer(1)),
        vec![r#"{"user":"Bob","time":3,"its_me":true,"msg":null}"#.to_string()]
    );
}

#[test]
fn insert_and_remove_work_by_address() {
    let mut registry = PeerMap::new();
    let v6 = PeerAddr::V6 { ip6: 1, port6: 40_001, flowinfo: 0, scope_id: 0 };
    registry.insert(peer(1), ChatClient::new("Ann".to_string()));
    registry.insert(v6, ChatClient::new("Bob".to_string()));
    assert_eq!(registry.len(), 2);
    assert!(registry.contains(v6));
    assert_eq!(registry.remove(peer(1)).unwrap().user(), "Ann");
    assert!(registry.remove(peer(1)).is_none());
    assert!(registry.get(peer(1)).is_none());
    assert_eq!(registry.len(), 1);
}

#[test]
fn leaving_is_not_announced() {
    let mut registry = PeerMap::new();
    registry.join_at(peer(1), "Ann".to_string(), 1);
    registry.join_at(peer(2), "Bob".to_string(), 2);
    registry.take_outbound(peer(1));
    assert!(registry.leave(peer(2)));
    assert!(registry.take_outbound(peer(1)).is_empty());
}

#[test]
fn broadcast_queues_under_the_given_identity() {
    let mut registry = PeerMap::new();
    registry.insert(peer(1), ChatClient::new("Ann".to_string()));
    registry.broadcast(peer(9), "Eve", -5, Some("a \"b\""));
    assert_eq!(
        registry.take_outbound(peer(1)),
        vec![r#"{"user":"Eve","time":-5,"its_me":false,"msg":"a \"b\""}"#.to_string()]
    );
}

#[test]
fn messages_are_written_as_json() {
    let message = ChatMessage {
        user: "Foo \"Bar\"".to_string(),
        time: 1_600_000_000,
        its_me: false,
        msg: Some("line\nbreak".to_string()),
    };
    assert_eq!(
        message.to_message(),
        r#"{"user":"Foo \"Bar\"","time":1600000000,"its_me":false,"msg":"line\nbreak"}"#
    );
    let notice = ChatMessage { user: "Foo".to_string(), time: 0, its_me: true, msg: None };
    assert_eq!(notice.to_message(), r#"{"user":"Foo","time":0,"its_me":true,"msg":null}"#);
    assert_eq!(
        frame_message("\"u\"", i64::MIN, true, "null"),
        r#"{"user":"u","time":-9223372036854775808,"its_me":true,"msg":null}"#
    );
}
