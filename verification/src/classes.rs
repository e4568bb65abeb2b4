//! Role behaviours: one per role, each with an initialize step (fired on the
//! transition into play), an on-tick step (fired on every feed sample), and a
//! snapshot. Timers are kept in whole seconds of match time; the draws that
//! feed them go through the trusted wrappers of [`crate::draws`].

use crate::draws::draw_bool;
use crate::draws::draw_in_range;
use crate::mailbox::MailboxStore;
use crate::messages::Message;
use crate::roles::lemma_position_from_index_injective;
use crate::roles::mission_from_index;
use crate::roles::position_from_index;
use crate::roles::spec_mission_from_index;
use crate::roles::Juliette;
use crate::roles::Mission;
use crate::roles::Role;
use crate::roles::MISSION_COUNT;
use crate::roles::POSITION_COUNT;
use vstd::prelude::*;

verus! {

/// Least gap, in seconds, between two droid mission fires.
pub const DROID_GAP_MIN: u64 = 14;

/// Greatest gap, in seconds, between two droid mission fires. The gap is
/// drawn uniformly from the band around twenty seconds.
pub const DROID_GAP_MAX: u64 = 26;

/// Least gap, in seconds, before a two-face alignment swap.
pub const TWO_FACE_GAP_MIN: u64 = 5;

/// Greatest gap, in seconds, before a two-face alignment swap.
pub const TWO_FACE_GAP_MAX: u64 = 20;

/// Addition on the seconds timeline, clamped at the top of the range.
pub open spec fn add_sat(a: u64, b: u64) -> u64 {
    if a + b <= u64::MAX {
        (a + b) as u64
    } else {
        u64::MAX
    }
}

/// Adds two second counts, clamping at the top of the range.
pub fn sat_add(a: u64, b: u64) -> (r: u64)
    ensures
        r == add_sat(a, b),
{
    if a <= u64::MAX - b {
        a + b
    } else {
        u64::MAX
    }
}

/// What a store turns into when directives are appended to one mailbox: the
/// same mailboxes, every other buffer unchanged, and the name's old buffer a
/// prefix of its new one.
pub open spec fn store_appended_at(pre: MailboxStore, post: MailboxStore, n: Seq<char>) -> bool {
    &&& post.wf()
    &&& forall|k: Seq<char>| #[trigger] post.has_box(k) <==> pre.has_box(k)
    &&& forall|k: Seq<char>|
        k != n && pre.has_box(k) ==> #[trigger] post.msgs(k) == pre.msgs(k)
    &&& pre.msgs(n).is_prefix_of(post.msgs(n))
}

/// The directives appended to the name's mailbox between two store states.
pub open spec fn store_delta_at(pre: MailboxStore, post: MailboxStore, n: Seq<char>) -> Seq<
    Message,
> {
    post.msgs(n).skip(pre.msgs(n).len() as int)
}

// ---------------------------------------------------------------------------
// The four stateless behaviours.
// ---------------------------------------------------------------------------
/// Wins by keeping the team alive; no private runtime state.
#[derive(Clone, Copy, Debug, PartialEq, Eq, Structural, Default)]
pub struct SuperHero {}

#[derive(Clone, Copy, Debug, PartialEq, Eq, Structural)]
pub struct SuperHeroState;

/// Hidden saboteur; no private runtime state.
#[derive(Clone, Copy, Debug, PartialEq, Eq, Structural, Default)]
pub struct Impostor {}

#[derive(Clone, Copy, Debug, PartialEq, Eq, Structural)]
pub struct ImpostorState;

/// Hidden opportunist; no private runtime state.
#[derive(Clone, Copy, Debug, PartialEq, Eq, Structural, Default)]
pub struct Crook {}

#[derive(Clone, Copy, Debug, PartialEq, Eq, Structural)]
pub struct CrookState;

/// Wins by dying spectacularly; no private runtime state.
#[derive(Clone, Copy, Debug, PartialEq, Eq, Structural, Default)]
pub struct Kamikaze {}

#[derive(Clone, Copy, Debug, PartialEq, Eq, Structural)]
pub struct KamikazeState;

// ---------------------------------------------------------------------------
// Droid: timed missions.
// ---------------------------------------------------------------------------
/// Receives a stream of timed missions while the game runs.
#[derive(Clone, Copy, Debug, PartialEq, Eq)]
pub struct Droid {
    /// The mission currently assigned, if any.
    pub mission: Option<Mission>,
    /// Match second at or after which the next mission fires.
    pub next_fire: u64,
}

#[derive(Clone, Copy, Debug, PartialEq, Eq)]
pub struct DroidState {
    pub mission: Option<Mission>,
}

/// The initialize step of a droid: the first fire time is drawn from the
/// gap band, the mission is still unassigned, and nothing is pushed.
pub open spec fn droid_init_step(pre: Droid, post: Droid, out: Seq<Message>) -> bool {
    &&& post.mission == pre.mission
    &&& DROID_GAP_MIN <= post.next_fire <= DROID_GAP_MAX
    &&& out =~= Seq::<Message>::empty()
}

/// The on-tick step of a droid: it fires exactly when the sample has reached
/// the fire time; a fire assigns a drawn mission, pushes it, and advances the
/// fire time by a gap drawn from the gap band.
pub open spec fn droid_step(pre: Droid, post: Droid, t: u64, out: Seq<Message>) -> bool {
    if pre.next_fire <= t {
        &&& (post.mission matches Some(m) && out =~= seq![Message::Mission { mission: m }])
        &&& add_sat(pre.next_fire, DROID_GAP_MIN) <= post.next_fire <= add_sat(
            pre.next_fire,
            DROID_GAP_MAX,
        )
    } else {
        post == pre && out =~= Seq::<Message>::empty()
    }
}

impl Droid {
    /// Draws the first fire time; pushes nothing.
    pub fn init(&mut self, name: &String, boxes: &mut MailboxStore)
        requires
            old(boxes).wf(),
            old(boxes).has_box(name@),
        ensures
            store_appended_at(*old(boxes), *final(boxes), name@),
            droid_init_step(
                *old(self),
                *final(self),
                store_delta_at(*old(boxes), *final(boxes), name@),
            ),
    {
        self.next_fire = draw_in_range(DROID_GAP_MIN, DROID_GAP_MAX);
        proof {
            assert(boxes.msgs(name@).skip(boxes.msgs(name@).len() as int) =~= Seq::<
                Message,
            >::empty());
        }
    }

    /// Fires at most once per tick: when the sample has reached the fire
    /// time, a mission is drawn, pushed, and the fire time advanced.
    pub fn update(&mut self, t: u64, name: &String, boxes: &mut MailboxStore)
        requires
            old(boxes).wf(),
            old(boxes).has_box(name@),
        ensures
            store_appended_at(*old(boxes), *final(boxes), name@),
            droid_step(
                *old(self),
                *final(self),
                t,
                store_delta_at(*old(boxes), *final(boxes), name@),
            ),
    {
        if self.next_fire <= t {
            let idx = draw_in_range(0, MISSION_COUNT - 1);
            let mission = mission_from_index(idx);
            let inc = draw_in_range(DROID_GAP_MIN, DROID_GAP_MAX);
            self.mission = Some(mission);
            self.next_fire = sat_add(self.next_fire, inc);
            let ghost pre_msgs = boxes.msgs(name@);
            boxes.push_to(name, Message::Mission { mission });
            proof {
                assert(boxes.msgs(name@).skip(pre_msgs.len() as int) =~= seq![
                    Message::Mission { mission: spec_mission_from_index(idx) },
                ]);
            }
        } else {
            proof {
                assert(boxes.msgs(name@).skip(boxes.msgs(name@).len() as int) =~= Seq::<
                    Message,
                >::empty());
            }
        }
    }

    /// The public snapshot: the current mission, possibly none.
    pub fn state(&self) -> (s: DroidState)
        ensures
            s == (DroidState { mission: self.mission }),
    {
        DroidState { mission: self.mission }
    }
}

// ---------------------------------------------------------------------------
// TwoFace: oscillating alignment.
// ---------------------------------------------------------------------------
/// Oscillates between playing to win and playing to lose.
#[derive(Clone, Copy, Debug, PartialEq, Eq)]
pub struct TwoFace {
    /// Whether the player is currently playing to lose.
    pub inting: bool,
    /// Match second at or after which the alignment next swaps.
    pub next_swap: u64,
}

#[derive(Clone, Copy, Debug, PartialEq, Eq)]
pub struct TwoFaceState {
    pub inting: bool,
}

/// The initialize step of a two-face: the alignment is a coin flip, the swap
/// time is drawn from the swap band, and the alignment is announced.
pub open spec fn two_face_init_step(pre: TwoFace, post: TwoFace, out: Seq<Message>) -> bool {
    &&& TWO_FACE_GAP_MIN <= post.next_swap <= TWO_FACE_GAP_MAX
    &&& out =~= seq![Message::TwoFaceState { inting: post.inting }]
}

/// The on-tick step of a two-face: it swaps exactly when the sample has
/// reached the swap time; a swap toggles the alignment, announces it, and
/// advances the swap time by a gap drawn from the swap band.
pub open spec fn two_face_step(pre: TwoFace, post: TwoFace, t: u64, out: Seq<Message>) -> bool {
    if pre.next_swap <= t {
        &&& post.inting == !pre.inting
        &&& add_sat(pre.next_swap, TWO_FACE_GAP_MIN) <= post.next_swap <= add_sat(
            pre.next_swap,
            TWO_FACE_GAP_MAX,
        )
        &&& out =~= seq![Message::TwoFaceState { inting: !pre.inting }]
    } else {
        post == pre && out =~= Seq::<Message>::empty()
    }
}

impl TwoFace {
    /// Flips the starting alignment, draws the first swap time, and
    /// announces the alignment.
    pub fn init(&mut self, name: &String, boxes: &mut MailboxStore)
        requires
            old(boxes).wf(),
            old(boxes).has_box(name@),
        ensures
            store_appended_at(*old(boxes), *final(boxes), name@),
            two_face_init_step(
                *old(self),
                *final(self),
                store_delta_at(*old(boxes), *final(boxes), name@),
            ),
    {
        self.inting = draw_bool();
        self.next_swap = draw_in_range(TWO_FACE_GAP_MIN, TWO_FACE_GAP_MAX);
        let ghost pre_msgs = boxes.msgs(name@);
        boxes.push_to(name, Message::TwoFaceState { inting: self.inting });
        proof {
            assert(boxes.msgs(name@).skip(pre_msgs.len() as int) =~= seq![
                Message::TwoFaceState { inting: self.inting },
            ]);
        }
    }

    /// Swaps at most once per tick: when the sample has reached the swap
    /// time, the alignment toggles and is announced, and the swap time is
    /// advanced.
    pub fn update(&mut self, t: u64, name: &String, boxes: &mut MailboxStore)
        requires
            old(boxes).wf(),
            old(boxes).has_box(name@),
        ensures
            store_appended_at(*old(boxes), *final(boxes), name@),
            two_face_step(
                *old(self),
                *final(self),
                t,
                store_delta_at(*old(boxes), *final(boxes), name@),
            ),
    {
        if self.next_swap <= t {
            self.inting = !self.inting;
            let inc = draw_in_range(TWO_FACE_GAP_MIN, TWO_FACE_GAP_MAX);
            self.next_swap = sat_add(self.next_swap, inc);
            let ghost pre_msgs = boxes.msgs(name@);
            boxes.push_to(name, Message::TwoFaceState { inting: self.inting });
            proof {
                assert(boxes.msgs(name@).skip(pre_msgs.len() as int) =~= seq![
                    Message::TwoFaceState { inting: self.inting },
                ]);
            }
        } else {
            proof {
                assert(boxes.msgs(name@).skip(boxes.msgs(name@).len() as int) =~= Seq::<
                    Message,
                >::empty());
            }
        }
    }

    /// The public snapshot: the current alignment.
    pub fn state(&self) -> (s: TwoFaceState)
        ensures
            s == (TwoFaceState { inting: self.inting }),
    {
        TwoFaceState { inting: self.inting }
    }
}

// ---------------------------------------------------------------------------
// Romeo: a secret pair of positions.
// ---------------------------------------------------------------------------
/// Falls for a secret position at initialize time and never acts again.
#[derive(Clone, Copy, Debug, PartialEq, Eq)]
pub struct Romeo {
    /// The pair drawn at initialize time, if play has begun.
    pub juliette: Option<Juliette>,
}

#[derive(Clone, Copy, Debug, PartialEq, Eq)]
pub struct RomeoState {
    pub juliette: Option<Juliette>,
}

/// The initialize step of a romeo: two distinct positions are drawn from the
/// ten-position set and announced as one directive.
pub open spec fn romeo_init_step(pre: Romeo, post: Romeo, out: Seq<Message>) -> bool {
    post.juliette matches Some(j) && j.juliette != j.substitute && out =~= seq![
        Message::Juliette { juliette: j },
    ]
}

impl Romeo {
    /// Draws the secret pair, distinct by a draw-and-skip over the remaining
    /// nine positions, and announces it.
    pub fn init(&mut self, name: &String, boxes: &mut MailboxStore)
        requires
            old(boxes).wf(),
            old(boxes).has_box(name@),
        ensures
            store_appended_at(*old(boxes), *final(boxes), name@),
            romeo_init_step(
                *old(self),
                *final(self),
                store_delta_at(*old(boxes), *final(boxes), name@),
            ),
    {
        let ji = draw_in_range(0, POSITION_COUNT - 1);
        let raw = draw_in_range(0, POSITION_COUNT - 2);
        let si = if raw >= ji {
            raw + 1
        } else {
            raw
        };
        proof {
            lemma_position_from_index_injective(ji, si);
        }
        let juliette = Juliette {
            juliette: position_from_index(ji),
            substitute: position_from_index(si),
        };
        self.juliette = Some(juliette);
        let ghost pre_msgs = boxes.msgs(name@);
        boxes.push_to(name, Message::Juliette { juliette });
        proof {
            assert(boxes.msgs(name@).skip(pre_msgs.len() as int) =~= seq![
                Message::Juliette { juliette },
            ]);
        }
    }

    /// The public snapshot: the drawn pair, if play has begun.
    pub fn state(&self) -> (s: RomeoState)
        ensures
            s == (RomeoState { juliette: self.juliette }),
    {
        RomeoState { juliette: self.juliette }
    }
}

// ---------------------------------------------------------------------------
// The engine: one behaviour variant per active player.
// ---------------------------------------------------------------------------
/// The behaviour running for one player, a closed union of the seven roles.
#[derive(Clone, Copy, Debug, PartialEq, Eq)]
pub enum PlayerClass {
    SuperHero(SuperHero),
    Impostor(Impostor),
    Crook(Crook),
    Kamikaze(Kamikaze),
    Romeo(Romeo),
    TwoFace(TwoFace),
    Droid(Droid),
}

/// A role-tagged public view of a behaviour's private state.
#[derive(Clone, Copy, Debug, PartialEq, Eq)]
pub enum PlayerState {
    SuperHero(SuperHeroState),
    Impostor(ImpostorState),
    Crook(CrookState),
    Kamikaze(KamikazeState),
    Romeo(RomeoState),
    TwoFace(TwoFaceState),
    Droid(DroidState),
}

/// The role a behaviour runs for.
pub open spec fn role_of_class(c: PlayerClass) -> Role {
    match c {
        PlayerClass::SuperHero(_) => Role::SuperHero,
        PlayerClass::Impostor(_) => Role::Impostor,
        PlayerClass::Crook(_) => Role::Crook,
        PlayerClass::Kamikaze(_) => Role::Kamikaze,
        PlayerClass::Romeo(_) => Role::Romeo,
        PlayerClass::TwoFace(_) => Role::TwoFace,
        PlayerClass::Droid(_) => Role::Droid,
    }
}

/// The behaviour a role starts with, before initialize has run.
pub open spec fn fresh_class_of(role: Role) -> PlayerClass {
    match role {
        Role::SuperHero => PlayerClass::SuperHero(SuperHero {}),
        Role::Impostor => PlayerClass::Impostor(Impostor {}),
        Role::Crook => PlayerClass::Crook(Crook {}),
        Role::Kamikaze => PlayerClass::Kamikaze(Kamikaze {}),
        Role::Romeo => PlayerClass::Romeo(Romeo { juliette: None }),
        Role::TwoFace => PlayerClass::TwoFace(TwoFace { inting: false, next_swap: 0 }),
        Role::Droid => PlayerClass::Droid(Droid { mission: None, next_fire: 0 }),
    }
}

/// The public snapshot of a behaviour.
pub open spec fn spec_class_state(c: PlayerClass) -> PlayerState {
    match c {
        PlayerClass::SuperHero(_) => PlayerState::SuperHero(SuperHeroState),
        PlayerClass::Impostor(_) => PlayerState::Impostor(ImpostorState),
        PlayerClass::Crook(_) => PlayerState::Crook(CrookState),
        PlayerClass::Kamikaze(_) => PlayerState::Kamikaze(KamikazeState),
        PlayerClass::Romeo(b) => PlayerState::Romeo(RomeoState { juliette: b.juliette }),
        PlayerClass::TwoFace(b) => PlayerState::TwoFace(TwoFaceState { inting: b.inting }),
        PlayerClass::Droid(b) => PlayerState::Droid(DroidState { mission: b.mission }),
    }
}

/// The initialize step of any behaviour: the role is kept, and the effect is
/// that of the role's own initialize.
pub open spec fn class_init_step(pre: PlayerClass, post: PlayerClass, out: Seq<Message>) -> bool {
    match (pre, post) {
        (PlayerClass::SuperHero(_), _) => post == pre && out =~= Seq::<Message>::empty(),
        (PlayerClass::Impostor(_), _) => post == pre && out =~= Seq::<Message>::empty(),
        (PlayerClass::Crook(_), _) => post == pre && out =~= Seq::<Message>::empty(),
        (PlayerClass::Kamikaze(_), _) => post == pre && out =~= Seq::<Message>::empty(),
        (PlayerClass::Romeo(a), PlayerClass::Romeo(b)) => romeo_init_step(a, b, out),
        (PlayerClass::TwoFace(a), PlayerClass::TwoFace(b)) => two_face_init_step(a, b, out),
        (PlayerClass::Droid(a), PlayerClass::Droid(b)) => droid_init_step(a, b, out),
        _ => false,
    }
}

/// The on-tick step of any behaviour: the role is kept, and the effect is
/// that of the role's own on-tick.
pub open spec fn class_step(pre: PlayerClass, post: PlayerClass, t: u64, out: Seq<Message>) -> bool {
    match (pre, post) {
        (PlayerClass::SuperHero(_), _) => post == pre && out =~= Seq::<Message>::empty(),
        (PlayerClass::Impostor(_), _) => post == pre && out =~= Seq::<Message>::empty(),
        (PlayerClass::Crook(_), _) => post == pre && out =~= Seq::<Message>::empty(),
        (PlayerClass::Kamikaze(_), _) => post == pre && out =~= Seq::<Message>::empty(),
        (PlayerClass::Romeo(a), _) => post == pre && out =~= Seq::<Message>::empty(),
        (PlayerClass::TwoFace(a), PlayerClass::TwoFace(b)) => two_face_step(a, b, t, out),
        (PlayerClass::Droid(a), PlayerClass::Droid(b)) => droid_step(a, b, t, out),
        _ => false,
    }
}

/// The behaviour a role starts with runs for that role.
pub proof fn lemma_fresh_class_role(role: Role)
    ensures
        role_of_class(fresh_class_of(role)) == role,
{
}

/// A behaviour step keeps the role: both the initialize and the on-tick step
/// of a behaviour leave its role tag unchanged.
pub proof fn lemma_step_keeps_role(pre: PlayerClass, post: PlayerClass, t: u64, out: Seq<Message>)
    requires
        class_init_step(pre, post, out) || class_step(pre, post, t, out),
    ensures
        role_of_class(post) == role_of_class(pre),
{
}

impl PlayerClass {
    /// The behaviour a role starts with: a total, pure mapping.
    pub fn from(role: Role) -> (c: Self)
        ensures
            c == fresh_class_of(role),
            role_of_class(c) == role,
    {
        match role {
            Role::SuperHero => PlayerClass::SuperHero(SuperHero {}),
            Role::Impostor => PlayerClass::Impostor(Impostor {}),
            Role::Crook => PlayerClass::Crook(Crook {}),
            Role::Kamikaze => PlayerClass::Kamikaze(Kamikaze {}),
            Role::Romeo => PlayerClass::Romeo(Romeo { juliette: None }),
            Role::TwoFace => PlayerClass::TwoFace(TwoFace { inting: false, next_swap: 0 }),
            Role::Droid => PlayerClass::Droid(Droid { mission: None, next_fire: 0 }),
        }
    }

    /// Dispatches initialize to the active behaviour.
    pub fn init(&mut self, name: &String, boxes: &mut MailboxStore)
        requires
            old(boxes).wf(),
            old(boxes).has_box(name@),
        ensures
            store_appended_at(*old(boxes), *final(boxes), name@),
            class_init_step(
                *old(self),
                *final(self),
                store_delta_at(*old(boxes), *final(boxes), name@),
            ),
    {
        match self {
            PlayerClass::Romeo(b) => b.init(name, boxes),
            PlayerClass::TwoFace(b) => b.init(name, boxes),
            PlayerClass::Droid(b) => b.init(name, boxes),
            _ => {
                proof {
                    assert(boxes.msgs(name@).skip(boxes.msgs(name@).len() as int) =~= Seq::<
                        Message,
                    >::empty());
                }
            },
        }
    }

    /// Dispatches one feed sample to the active behaviour.
    pub fn update(&mut self, t: u64, name: &String, boxes: &mut MailboxStore)
        requires
            old(boxes).wf(),
            old(boxes).has_box(name@),
        ensures
            store_appended_at(*old(boxes), *final(boxes), name@),
            class_step(
                *old(self),
                *final(self),
                t,
                store_delta_at(*old(boxes), *final(boxes), name@),
            ),
    {
        match self {
            PlayerClass::TwoFace(b) => b.update(t, name, boxes),
            PlayerClass::Droid(b) => b.update(t, name, boxes),
            _ => {
                proof {
                    assert(boxes.msgs(name@).skip(boxes.msgs(name@).len() as int) =~= Seq::<
                        Message,
                    >::empty());
                }
            },
        }
    }

    /// The role-tagged public snapshot of the active behaviour.
    pub fn get_state(&self) -> (s: PlayerState)
        ensures
            s == spec_class_state(*self),
    {
        match self {
            PlayerClass::SuperHero(_) => PlayerState::SuperHero(SuperHeroState),
            PlayerClass::Impostor(_) => PlayerState::Impostor(ImpostorState),
            PlayerClass::Crook(_) => PlayerState::Crook(CrookState),
            PlayerClass::Kamikaze(_) => PlayerState::Kamikaze(KamikazeState),
            PlayerClass::Romeo(b) => PlayerState::Romeo(b.state()),
            PlayerClass::TwoFace(b) => PlayerState::TwoFace(b.state()),
            PlayerClass::Droid(b) => PlayerState::Droid(b.state()),
        }
    }

    /// The role the behaviour runs for.
    pub fn role(&self) -> (r: Role)
        ensures
            r == role_of_class(*self),
    {
        match self {
            PlayerClass::SuperHero(_) => Role::SuperHero,
            PlayerClass::Impostor(_) => Role::Impostor,
            PlayerClass::Crook(_) => Role::Crook,
            PlayerClass::Kamikaze(_) => Role::Kamikaze,
            PlayerClass::Romeo(_) => Role::Romeo,
            PlayerClass::TwoFace(_) => Role::TwoFace,
            PlayerClass::Droid(_) => Role::Droid,
        }
    }
}

// The four stateless behaviours share the same trivial lifecycle: initialize
// and on-tick do nothing, and the snapshot is the bare role tag.
impl SuperHero {
    pub fn init(&self) {
    }

    pub fn update(&self, _t: u64) {
    }

    pub fn state(&self) -> (s: PlayerState)
        ensures
            s == PlayerState::SuperHero(SuperHeroState),
    {
        PlayerState::SuperHero(SuperHeroState)
    }
}

impl Impostor {
    pub fn init(&self) {
    }

    pub fn update(&self, _t: u64) {
    }

    pub fn state(&self) -> (s: PlayerState)
        ensures
            s == PlayerState::Impostor(ImpostorState),
    {
        PlayerState::Impostor(ImpostorState)
    }
}

impl Crook {
    pub fn init(&self) {
    }

    pub fn update(&self, _t: u64) {
    }

    pub fn state(&self) -> (s: PlayerState)
        ensures
            s == PlayerState::Crook(CrookState),
    {
        PlayerState::Crook(CrookState)
    }
}

impl Kamikaze {
    pub fn init(&self) {
    }

    pub fn update(&self, _t: u64) {
    }

    pub fn state(&self) -> (s: PlayerState)
        ensures
            s == PlayerState::Kamikaze(KamikazeState),
    {
        PlayerState::Kamikaze(KamikazeState)
    }
}

} // verus!
