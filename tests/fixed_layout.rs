use pong_sim::body_id::BodyId;
use pong_sim::command::Command;
use pong_sim::message::{MessagePod, Request, RequestError, MESSAGE_SIZE, PAYLOAD_SIZE};
use pong_sim::wire::{
    AABBPod, ActionPod, CommandPod, RigidBodyPod, Vec3Pod, WorldStatePod, MAX_BODIES, RECORD_SIZE,
    WORLD_SIZE,
};

fn v(x: f32, y: f32, z: f32) -> Vec3Pod {
    Vec3Pod { x: x.to_bits(), y: y.to_bits(), z: z.to_bits() }
}

fn body(name: &str, x: f32) -> RigidBodyPod {
    RigidBodyPod {
        id: BodyId::new(name),
        position: v(x, 0.5, -2.0),
        velocity: v(8.0, 4.0, 0.0),
        aabb: AABBPod { min: v(x - 1.0, -0.5, -3.0), max: v(x + 1.0, 1.5, -1.0) },
        mass: 2.5f32.to_bits(),
        restitution: 1.0f32.to_bits(),
        dynamic: 1,
    }
}

fn action() -> ActionPod {
    ActionPod {
        body_id: BodyId::new("paddle1"),
        velocity: v(0.0, -3.0, 0.0),
        position: v(-25.0, 1.0, 2.0),
        aabb: AABBPod { min: v(-26.0, -2.0, -1.0), max: v(-24.0, 4.0, 5.0) },
        mass: 1000.0f32.to_bits(),
        restitution: 0.75f32.to_bits(),
        dynamic: 0,
    }
}

#[test]
fn action_round_trips_through_a_message() {
    let a = action();
    let m = MessagePod::from_action(a);
    assert_eq!(m.msg_type(), MessagePod::TYPE_ACTION);
    let bytes = m.to_bytes();
    assert_eq!(bytes.len(), MESSAGE_SIZE);
    let back = MessagePod::from_bytes(&bytes).unwrap();
    assert_eq!(back.msg_type(), MessagePod::TYPE_ACTION);
    assert_eq!(back.as_action(), a);
    assert_eq!(back.request(), Ok(Request::Action(a)));
    assert_eq!(f32::from_bits(back.as_action().restitution), 0.75);
}

#[test]
fn action_record_layout_is_little_endian_after_the_id() {
    let bytes = MessagePod::from_action(action()).to_bytes();
    assert_eq!(&bytes[..4], &[1, 0, 0, 0]);
    assert!(bytes[4..16].iter().all(|&b| b == 0));
    assert_eq!(&bytes[16..23], b"paddle1");
    assert!(bytes[23..48].iter().all(|&b| b == 0));
    // velocity.x is 0.0, velocity.y is -3.0
    assert_eq!(&bytes[48..52], &0.0f32.to_bits().to_le_bytes());
    assert_eq!(&bytes[52..56], &(-3.0f32).to_bits().to_le_bytes());
    // dynamic, then padding, end the record
    assert_eq!(&bytes[16 + 88..16 + 96], &[0u8; 8]);
    assert!(bytes[16 + RECORD_SIZE..].iter().all(|&b| b == 0));
}

#[test]
fn world_state_round_trips_through_a_message() {
    let s = WorldStatePod {
        bodies: vec![body("wall_0", 0.0), body("paddle1", -25.0), body("ball", 3.25)],
        tick_rate: 60.0f32.to_bits(),
        time: 12.5f32.to_bits(),
    };
    let bytes = MessagePod::from_world_state(s.clone()).to_bytes();
    let back = MessagePod::from_bytes(&bytes).unwrap();
    assert_eq!(back.msg_type(), MessagePod::TYPE_WORLD_STATE);
    assert_eq!(back.as_world_state(), Some(s));
}

#[test]
fn world_state_of_no_bodies_round_trips() {
    let s = WorldStatePod { bodies: vec![], tick_rate: 0, time: 0 };
    let m = MessagePod::from_world_state(s.clone());
    assert_eq!(m.as_world_state(), Some(s));
}

#[test]
fn world_state_keeps_at_most_max_bodies() {
    let bodies: Vec<_> = (0..MAX_BODIES + 3).map(|i| body("ball", i as f32)).collect();
    let s = WorldStatePod { bodies: bodies.clone(), tick_rate: 1, time: 2 };
    assert_eq!(s.body_count() as usize, MAX_BODIES);
    let back = MessagePod::from_world_state(s).as_world_state().unwrap();
    assert_eq!(back.bodies.len(), MAX_BODIES);
    assert_eq!(back.bodies[..], bodies[..MAX_BODIES]);
    assert_eq!((back.tick_rate, back.time), (1, 2));
}

#[test]
fn world_state_with_too_large_a_count_is_refused() {
    let mut bytes = MessagePod::from_world_state(WorldStatePod { bodies: vec![], tick_rate: 0, time: 0 })
        .to_bytes();
    let count_at = 16 + MAX_BODIES * RECORD_SIZE;
    bytes[count_at..count_at + 4].copy_from_slice(&((MAX_BODIES as u32) + 1).to_le_bytes());
    let m = MessagePod::from_bytes(&bytes).unwrap();
    assert_eq!(m.as_world_state(), None);
    assert_eq!(16 + WORLD_SIZE, MESSAGE_SIZE);
    assert_eq!(PAYLOAD_SIZE, WORLD_SIZE);
}

#[test]
fn message_of_wrong_size_is_refused() {
    assert!(MessagePod::from_bytes(&[]).is_none());
    assert!(MessagePod::from_bytes(&vec![0u8; MESSAGE_SIZE - 1]).is_none());
    assert!(MessagePod::from_bytes(&vec![0u8; MESSAGE_SIZE + 1]).is_none());
    assert!(MessagePod::from_bytes(&vec![0u8; MESSAGE_SIZE]).is_some());
}

#[test]
fn command_round_trips_through_a_message() {
    for c in [Command::GetState, Command::PostAction, Command::Step, Command::Reset] {
        let pod = CommandPod::from(c);
        let m = MessagePod::from_bytes(&MessagePod::from_command(pod).to_bytes()).unwrap();
        assert_eq!(m.msg_type(), MessagePod::TYPE_COMMAND);
        assert_eq!(m.as_command(), pod);
        assert_eq!(m.as_command().command(), Some(c));
    }
}

#[test]
fn requests_are_dispatched_by_type_and_tag() {
    let req = |t: u32| MessagePod::from_command(CommandPod { cmd_type: t }).request();
    assert_eq!(req(CommandPod::GET_STATE), Ok(Request::GetState));
    assert_eq!(req(CommandPod::STEP), Ok(Request::Step));
    assert_eq!(req(CommandPod::RESET), Ok(Request::Reset));
    assert_eq!(req(CommandPod::POST_ACTION), Err(RequestError::UnknownCommand(1)));
    assert_eq!(req(42), Err(RequestError::UnknownCommand(42)));
    assert_eq!(CommandPod { cmd_type: 42 }.command(), None);
}

#[test]
fn unknown_message_type_is_refused() {
    let mut bytes = MessagePod::from_command(CommandPod { cmd_type: 0 }).to_bytes();
    bytes[0] = 5;
    let m = MessagePod::from_bytes(&bytes).unwrap();
    assert_eq!(m.request(), Err(RequestError::UnknownMessageType(5)));
}
