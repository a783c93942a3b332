use vstd::prelude::*;
use vstd::string::StringSliceAdditionalSpecFns;

verus! {

/// The bytes of "ball".
pub open spec fn ball_tag() -> Seq<u8> {
    seq![98u8, 97u8, 108u8, 108u8]
}

/// The bytes of "paddle".
pub open spec fn paddle_tag() -> Seq<u8> {
    seq![112u8, 97u8, 100u8, 100u8, 108u8, 101u8]
}

/// The bytes of "wall".
pub open spec fn wall_tag() -> Seq<u8> {
    seq![119u8, 97u8, 108u8, 108u8]
}

/// The bytes of "paddle1".
pub open spec fn paddle1_name() -> Seq<u8> {
    paddle_tag().push(49u8)
}

/// The bytes of "paddle2".
pub open spec fn paddle2_name() -> Seq<u8> {
    paddle_tag().push(50u8)
}

/// The role of a body in the arena game.
#[derive(Debug, Clone, Copy, PartialEq, Eq, Structural)]
pub enum GameObjectType {
    Wall,
    Paddle,
    Ball,
}

/// The role an identifier names by its prefix: "ball", "paddle" or "wall".
pub open spec fn kind_of(id: Seq<u8>) -> Option<GameObjectType> {
    if ball_tag().is_prefix_of(id) {
        Some(GameObjectType::Ball)
    } else if paddle_tag().is_prefix_of(id) {
        Some(GameObjectType::Paddle)
    } else if wall_tag().is_prefix_of(id) {
        Some(GameObjectType::Wall)
    } else {
        None
    }
}

fn has_prefix(s: &[u8], p: &[u8]) -> (r: bool)
    ensures
        r == p@.is_prefix_of(s@),
{
    if p.len() > s.len() {
        return false;
    }
    let mut i: usize = 0;
    while i < p.len()
        invariant
            p@.len() <= s@.len(),
            i <= p@.len(),
            forall|k: int| 0 <= k < i ==> p@[k] == s@[k],
        decreases p@.len() - i,
    {
        if p[i] != s[i] {
            return false;
        }
        i = i + 1;
    }
    true
}

fn tag_bytes(kind: GameObjectType) -> (r: Vec<u8>)
    ensures
        r@ == match kind {
            GameObjectType::Ball => ball_tag(),
            GameObjectType::Paddle => paddle_tag(),
            GameObjectType::Wall => wall_tag(),
        },
{
    let mut r: Vec<u8> = Vec::new();
    match kind {
        GameObjectType::Ball => {
            r.push(98u8);
            r.push(97u8);
            r.push(108u8);
            r.push(108u8);
        },
        GameObjectType::Paddle => {
            r.push(112u8);
            r.push(97u8);
            r.push(100u8);
            r.push(100u8);
            r.push(108u8);
            r.push(101u8);
        },
        GameObjectType::Wall => {
            r.push(119u8);
            r.push(97u8);
            r.push(108u8);
            r.push(108u8);
        },
    }
    assert(r@ =~= match kind {
        GameObjectType::Ball => ball_tag(),
        GameObjectType::Paddle => paddle_tag(),
        GameObjectType::Wall => wall_tag(),
    });
    r
}

impl GameObjectType {
    /// The role that an identifier's prefix names, if any.
    pub fn of_id(id: &str) -> (r: Option<GameObjectType>)
        ensures
            r == kind_of(id.spec_bytes()),
    {
        let b = id.as_bytes();
        if has_prefix(b, tag_bytes(GameObjectType::Ball).as_slice()) {
            Some(GameObjectType::Ball)
        } else if has_prefix(b, tag_bytes(GameObjectType::Paddle).as_slice()) {
            Some(GameObjectType::Paddle)
        } else if has_prefix(b, tag_bytes(GameObjectType::Wall).as_slice()) {
            Some(GameObjectType::Wall)
        } else {
            None
        }
    }
}

/// Where the ball stands against the arena's scoring lines.
#[derive(Debug, Clone, Copy, PartialEq, Eq, Structural)]
pub enum BallZone {
    /// Past the line on the negative side: player 2 scores.
    LeftGoal,
    Field,
    /// Past the line on the positive side: player 1 scores.
    RightGoal,
}

/// Scores, and where the paddles and the ball stand in the world's bodies.
#[derive(Debug, Clone, Copy, PartialEq, Eq, Structural)]
pub struct GameState {
    pub score_player1: u32,
    pub score_player2: u32,
    pub paddle1_index: usize,
    pub paddle2_index: usize,
    pub ball_index: usize,
}

/// One more point, held at the largest count.
pub open spec fn add_point(score: u32) -> u32 {
    if score < u32::MAX {
        (score + 1) as u32
    } else {
        score
    }
}

/// Index of the first identifier equal to `name`, or `default`.
pub open spec fn index_of_or(ids: Seq<Seq<u8>>, name: Seq<u8>, default: usize) -> usize {
    if exists|k: int| 0 <= k < ids.len() && ids[k] == name {
        (choose|k: int|
            0 <= k < ids.len() && ids[k] == name && forall|m: int| 0 <= m < k ==> ids[m] != name) as usize
    } else {
        default
    }
}

fn find_named(ids: &[&str], name: &[u8], default: usize) -> (r: usize)
    ensures
        r == index_of_or(ids@.map_values(|s: &str| s.spec_bytes()), name@, default),
{
    let ghost names = ids@.map_values(|s: &str| s.spec_bytes());
    let mut i: usize = 0;
    while i < ids.len()
        invariant
            i <= ids@.len(),
            names == ids@.map_values(|s: &str| s.spec_bytes()),
            forall|m: int| 0 <= m < i ==> names[m] != name@,
        decreases ids@.len() - i,
    {
        let b = ids[i].as_bytes();
        if b.len() == name.len() && has_prefix(b, name) {
            assert(b@ =~= name@);
            assert(names[i as int] == name@);
            return i;
        }
        assert(names[i as int] != name@);
        i = i + 1;
    }
    assert(!exists|k: int| 0 <= k < names.len() && names[k] == name@);
    default
}

/// Index of the first body whose identifier is `id`, if any: where an
/// action for `id` is applied. An unknown identifier finds nothing.
pub fn find_body(ids: &[&str], id: &str) -> (r: Option<usize>)
    ensures
        r is Some <==> exists|k: int| 0 <= k < ids@.len() && ids@[k].spec_bytes() == id.spec_bytes(),
        r matches Some(k) ==> k < ids@.len() && ids@[k as int].spec_bytes() == id.spec_bytes()
            && forall|m: int| 0 <= m < k ==> ids@[m].spec_bytes() != id.spec_bytes(),
{
    let name = id.as_bytes();
    let mut i: usize = 0;
    while i < ids.len()
        invariant
            i <= ids@.len(),
            name@ == id.spec_bytes(),
            forall|m: int| 0 <= m < i ==> ids@[m].spec_bytes() != id.spec_bytes(),
        decreases ids@.len() - i,
    {
        let b = ids[i].as_bytes();
        if b.len() == name.len() && has_prefix(b, name) {
            assert(b@ =~= name@);
            return Some(i);
        }
        i = i + 1;
    }
    None
}

impl GameState {
    pub fn new(paddle1_index: usize, paddle2_index: usize, ball_index: usize) -> (r: GameState)
        ensures
            r == (GameState {
                score_player1: 0,
                score_player2: 0,
                paddle1_index,
                paddle2_index,
                ball_index,
            }),
    {
        GameState { score_player1: 0, score_player2: 0, paddle1_index, paddle2_index, ball_index }
    }

    /// A fresh game over bodies named by `ids`: the paddles and the ball are
    /// the first bodies named "paddle1", "paddle2" and "ball", else bodies
    /// 0, 1 and 2.
    pub fn locate(ids: &[&str]) -> (r: GameState)
        ensures
            r.score_player1 == 0,
            r.score_player2 == 0,
            r.paddle1_index == index_of_or(
                ids@.map_values(|s: &str| s.spec_bytes()),
                paddle1_name(),
                0,
            ),
            r.paddle2_index == index_of_or(
                ids@.map_values(|s: &str| s.spec_bytes()),
                paddle2_name(),
                1,
            ),
            r.ball_index == index_of_or(ids@.map_values(|s: &str| s.spec_bytes()), ball_tag(), 2),
    {
        let mut first = tag_bytes(GameObjectType::Paddle);
        first.push(49u8);
        let mut second = tag_bytes(GameObjectType::Paddle);
        second.push(50u8);
        let ball = tag_bytes(GameObjectType::Ball);
        let paddle1_index = find_named(ids, first.as_slice(), 0);
        let paddle2_index = find_named(ids, second.as_slice(), 1);
        let ball_index = find_named(ids, ball.as_slice(), 2);
        GameState::new(paddle1_index, paddle2_index, ball_index)
    }

    /// Awards a point when the ball is past a scoring line and says who
    /// scored: 2 past the negative line, 1 past the positive one.
    pub fn check_scoring(&mut self, zone: BallZone) -> (r: Option<u8>)
        ensures
            final(self).paddle1_index == old(self).paddle1_index,
            final(self).paddle2_index == old(self).paddle2_index,
            final(self).ball_index == old(self).ball_index,
            zone == BallZone::LeftGoal ==> r == Some(2u8) && final(self).score_player2 == add_point(
                old(self).score_player2,
            ) && final(self).score_player1 == old(self).score_player1,
            zone == BallZone::RightGoal ==> r == Some(1u8) && final(self).score_player1
                == add_point(old(self).score_player1) && final(self).score_player2 == old(
                self,
            ).score_player2,
            zone == BallZone::Field ==> r is None && *final(self) == *old(self),
    {
        match zone {
            BallZone::LeftGoal => {
                if self.score_player2 < u32::MAX {
                    self.score_player2 = self.score_player2 + 1;
                }
                Some(2)
            },
            BallZone::RightGoal => {
                if self.score_player1 < u32::MAX {
                    self.score_player1 = self.score_player1 + 1;
                }
                Some(1)
            },
            BallZone::Field => None,
        }
    }
}

/// Sign of the ball's x velocity when it is served after a point: away from
/// the side where it left the arena, toward the player who did not score.
pub fn serve_direction(scorer: u8) -> (r: i8)
    ensures
        r == (if scorer == 1 { -1i8 } else { 1i8 }),
{
    if scorer == 1 {
        -1
    } else {
        1
    }
}

} // verus!
