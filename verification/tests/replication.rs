use character_controller::net::{
    apply_incoming, frames, queue_location, NetworkingAction, LINE_END, OUTGOING_LIMIT,
};
use character_controller::single::Single;
use character_controller::vector::{Quat, Transform, Vec3};

fn single(x: f32) -> Single {
    Single::from_bits(x.to_bits())
}

fn place(x: f32, y: f32, z: f32, turn: f32) -> Transform {
    Transform {
        translation: Vec3::new(single(x), single(y), single(z)),
        rotation: Quat { x: single(0.0), y: single(turn), z: single(0.0), w: single(1.0) },
    }
}

fn location(t: &Transform) -> NetworkingAction {
    NetworkingAction::Location(t.rotation, t.translation)
}

/// The lines as the text functions of the standard library cut them.
fn lines_by_split(msg: &str) -> Vec<String> {
    let mut out = Vec::new();
    for line in msg.split("\n") {
        if line.len() == 0 {
            break;
        }
        out.push(line.to_string());
    }
    out
}

fn lines_by_frames(msg: &str) -> Vec<String> {
    let bytes = msg.as_bytes();
    frames(bytes)
        .into_iter()
        .map(|(a, b)| String::from_utf8(bytes[a..b].to_vec()).unwrap())
        .collect()
}

#[test]
fn limits() {
    assert_eq!(OUTGOING_LIMIT, 3);
    assert_eq!(LINE_END, b'\n');
}

#[test]
fn places_are_queued_until_the_queue_is_full() {
    let mut out: Vec<NetworkingAction> = Vec::new();
    for i in 0..3 {
        let here = place(i as f32, 0.0, 1.0, 0.5);
        assert!(queue_location(&mut out, &here));
        assert_eq!(out.len(), i + 1);
        match &out[i] {
            NetworkingAction::Location(rotation, translation) => {
                assert!(*rotation == here.rotation);
                assert!(*translation == here.translation);
            }
            other => panic!("{other:?}"),
        }
    }
    assert!(!queue_location(&mut out, &place(9.0, 9.0, 9.0, 0.0)));
    assert_eq!(out.len(), 3);
    out.remove(0);
    assert!(queue_location(&mut out, &place(9.0, 9.0, 9.0, 0.0)));
    assert_eq!(out.len(), 3);
}

#[test]
fn a_full_queue_of_other_messages_also_holds_places_back() {
    let mut out = vec![
        NetworkingAction::Heartbeat,
        NetworkingAction::Print("a".to_string()),
        NetworkingAction::Heartbeat,
        NetworkingAction::Heartbeat,
    ];
    assert!(!queue_location(&mut out, &place(1.0, 2.0, 3.0, 0.0)));
    assert_eq!(out.len(), 4);
}

#[test]
fn the_last_place_that_arrives_stays() {
    let a = place(1.0, 2.0, 3.0, 0.1);
    let b = place(-4.0, 0.0, 8.5, 0.2);
    let mut me = place(0.0, 0.0, 0.0, 0.0);
    let actions = vec![
        NetworkingAction::Print("hello".to_string()),
        location(&a),
        NetworkingAction::Heartbeat,
        location(&b),
        NetworkingAction::Print("bye".to_string()),
    ];
    apply_incoming(&mut me, &actions);
    assert!(me == b);
    apply_incoming(&mut me, &vec![location(&a)]);
    assert!(me == a);
}

#[test]
fn texts_and_heartbeats_move_nothing() {
    let start = place(5.0, 0.0, -5.0, 0.3);
    let mut me = start;
    apply_incoming(&mut me, &Vec::new());
    assert!(me == start);
    apply_incoming(
        &mut me,
        &vec![NetworkingAction::Heartbeat, NetworkingAction::Print("x".to_string())],
    );
    assert!(me == start);
    assert_eq!(me.translation.x.to_bits(), 5.0f32.to_bits());
}

#[test]
fn a_place_overwrites_the_transform_bit_for_bit() {
    let mut me = place(0.0, 0.0, 0.0, 0.0);
    let odd = Transform {
        translation: Vec3::new(single(-0.0), single(f32::NAN), single(1e-40)),
        rotation: Quat { x: single(0.5), y: single(-0.5), z: single(0.5), w: single(-0.5) },
    };
    apply_incoming(&mut me, &vec![location(&odd)]);
    assert_eq!(me.translation.x.to_bits(), (-0.0f32).to_bits());
    assert_eq!(me.translation.y.to_bits(), f32::NAN.to_bits());
    assert_eq!(me.translation.z.to_bits(), 1e-40f32.to_bits());
    assert_eq!(me.rotation.w.to_bits(), (-0.5f32).to_bits());
}

#[test]
fn frames_of_small_buffers() {
    assert_eq!(frames(b""), vec![]);
    assert_eq!(frames(b"\n"), vec![]);
    assert_eq!(frames(b"abc"), vec![(0, 3)]);
    assert_eq!(frames(b"abc\n"), vec![(0, 3)]);
    assert_eq!(frames(b"abc\nde"), vec![(0, 3), (4, 6)]);
    assert_eq!(frames(b"abc\nde\n"), vec![(0, 3), (4, 6)]);
    assert_eq!(frames(b"a\n\nb"), vec![(0, 1)]);
    assert_eq!(frames(b"\nabc"), vec![]);
    assert_eq!(frames(b"a\nb\nc\nd"), vec![(0, 1), (2, 3), (4, 5), (6, 7)]);
}

#[test]
fn frames_agree_with_splitting_text() {
    for msg in [
        "",
        "\n",
        "\n\n",
        "x",
        "{\"Print\":\"hi\"}\n\"Heartbeat\"\n",
        "\"Heartbeat\"\n\"Heartbeat\"",
        "one\ntwo\n\nthree\n",
        "\r\n\r\n",
        "tab\there\nnext\n",
        "line with \u{fffd} in it\nsecond \u{00e9}\n",
    ] {
        assert_eq!(lines_by_frames(msg), lines_by_split(msg), "{msg:?}");
    }
}
