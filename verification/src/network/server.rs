//! The server's handling of client messages, as a state machine: the state of each
//! connected client, and for each message from a client the new state, the replies to
//! that client, and the messages relayed to the other clients; and the sections of the
//! world that each client has been sent. Sockets, tasks and channels are the caller's.
use vstd::prelude::*;
use crate::binary::types::{Text, TextModel, RGB};
use crate::world::types::{World, Header};
use crate::network::messages::{
    Message, Sanitize, ConnectionApprove, PlayerDetails, PlayerHealth, PlayerMana, PlayerBuffs,
    PlayerLoadout, PlayerInventorySlot, details_fields, sanitized_details, MIN_MAXIMUM_HEALTH, SpawnRequest,
    KillCount,
};
use vstd::utf8::encode_utf8;
use crate::network::utils::{
    encode_world_header, world_header_from, get_section_x, get_section_y, SECTION_WIDTH, SECTION_HEIGHT,
    encode_tiles, section_encodable, section_bytes, deflated, get_sections_near, section_is_encodable,
};

verus! {

/// The game version that the server accepts.
pub const GAME_VERSION: &'static str = "Terraria279";

/// The number of client slots.
pub const MAX_CLIENTS: usize = 256;

/// The longest player name, in bytes.
pub const MAX_NAME_LEN: usize = 20;

/// The number of inventory slots of a player.
pub const MAX_INVENTORY_SLOTS: usize = 350;

/// How far a client has come in joining.
#[derive(Debug, Clone, Copy, PartialEq, Eq, Structural)]
pub enum ConnectionState {
    New,
    PendingAuthentication,
    Authenticated,
    DetailsReceived,
    Complete,
}

/// What the server knows of a connected client.
#[derive(Debug)]
pub struct Client {
    pub state: ConnectionState,
    pub uuid: Option<String>,
    pub details: Option<PlayerDetails>,
    pub health: Option<PlayerHealth>,
    pub mana: Option<PlayerMana>,
    pub buffs: Option<PlayerBuffs>,
    pub loadout: Option<PlayerLoadout>,
    /// One entry per inventory slot.
    pub inventory: Vec<Option<PlayerInventorySlot>>,
    /// For each section column, for each section row, whether the client has been sent
    /// that section of the world.
    pub loaded_sections: Vec<Vec<bool>>,
}

impl Client {
    /// A client's record: one entry per inventory slot.
    pub open spec fn wf(&self) -> bool {
        self.inventory@.len() == MAX_INVENTORY_SLOTS
    }

    /// A client that has just connected to a world of `width` by `height` sections:
    /// nothing known, every inventory slot empty, no section sent.
    pub fn new(width: usize, height: usize) -> (c: Self)
        ensures
            c.wf(),
            c.state == ConnectionState::New,
            c.uuid is None,
            c.details is None,
            c.health is None,
            c.mana is None,
            c.buffs is None,
            c.loadout is None,
            forall|i: int| 0 <= i < c.inventory@.len() ==> c.inventory@[i] is None,
            c.loaded_sections@.len() == width,
            forall|x: int|
                0 <= x < width ==> (#[trigger] c.loaded_sections@[x])@.len() == height && forall|y: int|
                    0 <= y < height ==> !c.loaded_sections@[x]@[y],
    {
        let mut inventory: Vec<Option<PlayerInventorySlot>> = Vec::new();
        let mut i: usize = 0;
        while i < MAX_INVENTORY_SLOTS
            invariant
                i <= MAX_INVENTORY_SLOTS,
                inventory@.len() == i,
                forall|j: int| 0 <= j < inventory@.len() ==> inventory@[j] is None,
            decreases MAX_INVENTORY_SLOTS - i,
        {
            inventory.push(None);
            i = i + 1;
        }
        let mut loaded_sections: Vec<Vec<bool>> = Vec::new();
        let mut x: usize = 0;
        while x < width
            invariant
                x <= width,
                loaded_sections@.len() == x,
                forall|a: int|
                    0 <= a < x ==> (#[trigger] loaded_sections@[a])@.len() == height && forall|b: int|
                        0 <= b < height ==> !loaded_sections@[a]@[b],
            decreases width - x,
        {
            let mut column: Vec<bool> = Vec::new();
            let mut y: usize = 0;
            while y < height
                invariant
                    y <= height,
                    column@.len() == y,
                    forall|b: int| 0 <= b < y ==> !column@[b],
                decreases height - y,
            {
                column.push(false);
                y = y + 1;
            }
            loaded_sections.push(column);
            x = x + 1;
        }
        Client {
            state: ConnectionState::New,
            uuid: None,
            details: None,
            health: None,
            mana: None,
            buffs: None,
            loadout: None,
            inventory,
            loaded_sections,
        }
    }
}

/// What the server knows of a client, names and ids by their characters.
pub struct ClientView {
    pub state: ConnectionState,
    pub uuid: Option<Seq<char>>,
    pub details: Option<(u8, u8, u8, Seq<char>, u8, u16, u8, RGB, RGB, RGB, RGB, RGB, RGB, RGB, u8, u8, u8)>,
    pub health: Option<PlayerHealth>,
    pub mana: Option<PlayerMana>,
    pub buffs: Option<PlayerBuffs>,
    pub loadout: Option<PlayerLoadout>,
    pub inventory: Seq<Option<PlayerInventorySlot>>,
    pub loaded_sections: Seq<Seq<bool>>,
}

impl View for Client {
    type V = ClientView;

    open spec fn view(&self) -> ClientView {
        ClientView {
            state: self.state,
            uuid: match self.uuid {
                Some(u) => Some(u@),
                None => None,
            },
            details: match self.details {
                Some(d) => Some(details_fields(d)),
                None => None,
            },
            health: self.health,
            mana: self.mana,
            buffs: self.buffs,
            loadout: self.loadout,
            inventory: self.inventory@,
            loaded_sections: self.loaded_sections@.map_values(|c: Vec<bool>| c@),
        }
    }
}

/// The length of a name in bytes, as `str::len` gives it.
pub open spec fn name_bytes(name: Seq<char>) -> usize {
    encode_utf8(name).len() as usize
}

/// The message accepts the client into slot `src`.
pub open spec fn approval(m: Message, src: u8) -> bool {
    m matches Message::ConnectionApprove(a) && a == (ConnectionApprove { client_id: src, flag: false })
}

/// Health as the server keeps it: the sender's slot as the client id, the maximum at least 100.
pub open spec fn sanitized_health(h: PlayerHealth, src: u8) -> PlayerHealth {
    PlayerHealth {
        client_id: src,
        maximum: if h.maximum < MIN_MAXIMUM_HEALTH { MIN_MAXIMUM_HEALTH } else { h.maximum },
        ..h
    }
}

/// Nothing changes and nothing is sent.
pub open spec fn ignored(
    c: ClientView,
    next: ClientView,
    replies: Seq<Message>,
    relays: Seq<(Message, Option<usize>)>,
) -> bool {
    next == c && replies.len() == 0 && relays.len() == 0
}

/// The client is refused with the localization key `key`, and its record stays.
pub open spec fn refused(
    c: ClientView,
    key: Seq<char>,
    next: ClientView,
    replies: Seq<Message>,
    relays: Seq<(Message, Option<usize>)>,
) -> bool {
    next == c && replies.len() == 1 && refusal(replies[0], key) && relays.len() == 0
}

/// The payload is kept in the record and nothing is answered; `relayed` holds when it
/// goes to every other client too, as the one message `m`.
pub open spec fn kept(
    next: ClientView,
    updated: ClientView,
    replies: Seq<Message>,
    relays: Seq<(Message, Option<usize>)>,
    relayed: bool,
    m: spec_fn(Message) -> bool,
    src: u8,
) -> bool {
    &&& next == updated
    &&& replies.len() == 0
    &&& if relayed {
        relays.len() == 1 && m(relays[0].0) && relays[0].1 == Some(src as usize)
    } else {
        relays.len() == 0
    }
}

/// How a client in slot `src`, whose record was `c`, is answered when it sends `msg`
/// (any message but a world or spawn request, which the server answers from the world):
/// its record becomes `next`, `replies` go back to
/// it, and each of `relays` goes to every client but the one it names. `password` is
/// the server's (empty for none) and `name_taken` whether a connected player already
/// has the name that `msg` may carry.
pub open spec fn answered(
    c: ClientView,
    msg: Message,
    src: u8,
    password: Seq<char>,
    name_taken: bool,
    next: ClientView,
    replies: Seq<Message>,
    relays: Seq<(Message, Option<usize>)>,
) -> bool {
    match msg {
        Message::VersionIdentifier(v) => if c.state != ConnectionState::New {
            ignored(c, next, replies, relays)
        } else if v@ == GAME_VERSION@ {
            if password.len() == 0 {
                next == (ClientView { state: ConnectionState::Authenticated, ..c }) && replies.len() == 1
                    && approval(replies[0], src) && relays.len() == 0
            } else {
                next == (ClientView { state: ConnectionState::PendingAuthentication, ..c }) && replies.len()
                    == 1 && replies[0] is PasswordRequest && relays.len() == 0
            }
        } else {
            refused(c, "LegacyMultiplayer.4"@, next, replies, relays)
        },
        Message::PasswordResponse(p) => if p@ == password {
            next == (ClientView { state: ConnectionState::Authenticated, ..c }) && replies.len() == 1
                && approval(replies[0], src) && relays.len() == 0
        } else {
            refused(c, "LegacyMultiplayer.1"@, next, replies, relays)
        },
        Message::UUID(u) => ignored(ClientView { uuid: Some(u@), ..c }, next, replies, relays),
        Message::PlayerDetails(pd) => if c.state != ConnectionState::Authenticated {
            refused(c, "LegacyMultiplayer.1"@, next, replies, relays)
        } else if name_taken {
            refused(c, "LegacyMultiplayer.5"@, next, replies, relays)
        } else if name_bytes(pd.name@) > MAX_NAME_LEN {
            refused(c, "Net.NameTooLong"@, next, replies, relays)
        } else if pd.name@.len() == 0 {
            refused(c, "Net.EmptyName"@, next, replies, relays)
        } else {
            kept(
                next,
                ClientView {
                    state: ConnectionState::DetailsReceived,
                    details: Some(sanitized_details(pd, src)),
                    ..c
                },
                replies,
                relays,
                true,
                |m: Message| m matches Message::PlayerDetails(d) && details_fields(d) == sanitized_details(pd, src),
                src,
            )
        },
        Message::PlayerHealth(h) => kept(
            next,
            ClientView { health: Some(sanitized_health(h, src)), ..c },
            replies,
            relays,
            true,
            |m: Message| m == Message::PlayerHealth(sanitized_health(h, src)),
            src,
        ),
        Message::PlayerMana(pm) => kept(
            next,
            ClientView { mana: Some(PlayerMana { client_id: src, ..pm }), ..c },
            replies,
            relays,
            false,
            |m: Message| false,
            src,
        ),
        Message::PlayerBuffs(pb) => kept(
            next,
            ClientView { buffs: Some(PlayerBuffs { client_id: src, ..pb }), ..c },
            replies,
            relays,
            true,
            |m: Message| m == Message::PlayerBuffs(PlayerBuffs { client_id: src, ..pb }),
            src,
        ),
        Message::PlayerLoadout(pl) => kept(
            next,
            ClientView { loadout: Some(PlayerLoadout { client_id: src, ..pl }), ..c },
            replies,
            relays,
            true,
            |m: Message| m == Message::PlayerLoadout(PlayerLoadout { client_id: src, ..pl }),
            src,
        ),
        Message::PlayerInventorySlot(pis) => if 0 <= pis.slot_id < MAX_INVENTORY_SLOTS {
            let slot = PlayerInventorySlot { client_id: src, ..pis };
            kept(
                next,
                ClientView { inventory: c.inventory.update(pis.slot_id as int, Some(slot)), ..c },
                replies,
                relays,
                true,
                |m: Message| m == Message::PlayerInventorySlot(slot),
                src,
            )
        } else {
            ignored(c, next, replies, relays)
        },
        _ => ignored(c, next, replies, relays),
    }
}

impl Client {
    /// Answers a message from this client, the one in slot `src`: see [`answered`].
    fn handle(&mut self, msg: Message, src: u8, password: &String, name_taken: bool) -> (r: (
        Vec<Message>,
        Vec<(Message, Option<usize>)>,
    ))
        requires
            old(self).wf(),
        ensures
            final(self).wf(),
            answered(old(self)@, msg, src, password@, name_taken, final(self)@, r.0@, r.1@),
    {
        let mut replies: Vec<Message> = Vec::new();
        let mut relays: Vec<(Message, Option<usize>)> = Vec::new();
        let ghost c = self@;
        match msg {
            Message::VersionIdentifier(version) => {
                if self.state != ConnectionState::New {
                    return (replies, relays);
                }
                let expected = GAME_VERSION.to_owned();
                if version == expected {
                    if password.as_str().is_empty() {
                        self.state = ConnectionState::Authenticated;
                        replies.push(Message::ConnectionApprove(ConnectionApprove { client_id: src, flag: false }));
                    } else {
                        self.state = ConnectionState::PendingAuthentication;
                        replies.push(Message::PasswordRequest);
                    }
                } else {
                    replies.push(refuse("LegacyMultiplayer.4"));
                }
            },
            Message::PasswordResponse(pass) => {
                if pass == *password {
                    self.state = ConnectionState::Authenticated;
                    replies.push(Message::ConnectionApprove(ConnectionApprove { client_id: src, flag: false }));
                } else {
                    replies.push(refuse("LegacyMultiplayer.1"));
                }
            },
            Message::UUID(uuid) => {
                self.uuid = Some(uuid);
            },
            Message::PlayerDetails(pd) => {
                if self.state != ConnectionState::Authenticated {
                    replies.push(refuse("LegacyMultiplayer.1"));
                } else if name_taken {
                    replies.push(refuse("LegacyMultiplayer.5"));
                } else if pd.name.as_str().len() > MAX_NAME_LEN {
                    replies.push(refuse("Net.NameTooLong"));
                } else if pd.name.as_str().is_empty() {
                    replies.push(refuse("Net.EmptyName"));
                } else {
                    let mut pd = pd;
                    pd.sanitize(src);
                    relays.push((Message::PlayerDetails(pd.clone()), Some(src as usize)));
                    self.details = Some(pd);
                    self.state = ConnectionState::DetailsReceived;
                }
            },
            Message::PlayerHealth(ph) => {
                let mut ph = ph;
                ph.sanitize(src);
                relays.push((Message::PlayerHealth(ph), Some(src as usize)));
                self.health = Some(ph);
            },
            Message::PlayerMana(pm) => {
                let mut pm = pm;
                pm.sanitize(src);
                self.mana = Some(pm);
            },
            Message::PlayerBuffs(pb) => {
                let mut pb = pb;
                pb.sanitize(src);
                relays.push((Message::PlayerBuffs(pb), Some(src as usize)));
                self.buffs = Some(pb);
            },
            Message::PlayerLoadout(pl) => {
                let mut pl = pl;
                pl.sanitize(src);
                relays.push((Message::PlayerLoadout(pl), Some(src as usize)));
                self.loadout = Some(pl);
            },
            Message::PlayerInventorySlot(pis) => {
                let mut pis = pis;
                pis.sanitize(src);
                if pis.slot_id >= 0 && pis.slot_id < 350 {
                    let idx = pis.slot_id as usize;
                    relays.push((Message::PlayerInventorySlot(pis), Some(src as usize)));
                    self.inventory.set(idx, Some(pis));
                }
            },
            _ => {},
        }
        (replies, relays)
    }
}

/// Each column `xs..xe` of `loaded` exists and has rows up to `ye`, when rows `ys..ye`
/// are not empty.
pub open spec fn covers(loaded: Seq<Seq<bool>>, xs: int, xe: int, ys: int, ye: int) -> bool {
    forall|a: int| #![trigger column_len(loaded, a)] xs <= a && a < xe && ys < ye ==> (a < loaded.len() && ye <= column_len(loaded, a))
}

/// The number of rows that column `a` of `loaded` has.
pub open spec fn column_len(loaded: Seq<Seq<bool>>, a: int) -> int {
    loaded[a].len() as int
}

/// The sections of column `x`, rows `ys..ye`, that `column` does not mark as sent, in
/// order.
pub open spec fn pending_in_column(column: Seq<bool>, x: int, ys: int, ye: int) -> Seq<(usize, usize)>
    decreases ye - ys,
{
    if ye <= ys {
        Seq::empty()
    } else {
        let r = pending_in_column(column, x, ys, ye - 1);
        if column[ye - 1] {
            r
        } else {
            r.push((x as usize, (ye - 1) as usize))
        }
    }
}

/// The sections in columns `xs..xe` and rows `ys..ye` not yet sent, column by column.
pub open spec fn pending_sections(loaded: Seq<Seq<bool>>, xs: int, xe: int, ys: int, ye: int) -> Seq<(usize, usize)>
    decreases xe - xs,
{
    if xe <= xs {
        Seq::empty()
    } else {
        pending_sections(loaded, xs, xe - 1, ys, ye) + pending_in_column(loaded[xe - 1], xe - 1, ys, ye)
    }
}

/// Each message carries the section at the same place of `sections` (see
/// [`encode_tiles`]).
pub open spec fn carries_sections(msgs: Seq<Message>, world: World, sections: Seq<(usize, usize)>) -> bool {
    &&& msgs.len() == sections.len()
    &&& forall|i: int|
        0 <= i < msgs.len() ==> (#[trigger] msgs[i] matches Message::Unknown(code, v) && code == 10 && v@
            == deflated(section_bytes(world, sections[i].0, sections[i].1)))
}

/// The section (`x`, `y`) lies in columns `xs..xe` and rows `ys..ye`.
pub open spec fn in_range(x: int, y: int, xs: int, xe: int, ys: int, ye: int) -> bool {
    xs <= x < xe && ys <= y < ye
}

/// The marks of `after` are those of `before`, with every section in columns `xs..xe`
/// and rows `ys..ye` marked, and no other.
pub open spec fn marked_sent(
    before: Seq<Seq<bool>>,
    after: Seq<Seq<bool>>,
    xs: int,
    xe: int,
    ys: int,
    ye: int,
) -> bool {
    &&& after.len() == before.len()
    &&& forall|x: int| 0 <= x < before.len() ==> (#[trigger] after[x]).len() == before[x].len()
    &&& forall|x: int, y: int|
        0 <= x < before.len() && 0 <= y < before[x].len() ==> #[trigger] after[x][y] == (before[x][y] || in_range(
            x,
            y,
            xs,
            xe,
            ys,
            ye,
        ))
}

impl Client {
    /// Encodes the sections in columns `sec_x_start..sec_x_end` and rows
    /// `sec_y_start..sec_y_end` that the client has not been sent, column by column, and
    /// marks each as sent. Compressing a section does not fail, so neither does this.
    pub fn encode_sections(
        &mut self,
        world: &World,
        sec_x_start: usize,
        sec_x_end: usize,
        sec_y_start: usize,
        sec_y_end: usize,
    ) -> (r: Result<Vec<Message>, std::io::Error>)
        requires
            covers(old(self)@.loaded_sections, sec_x_start as int, sec_x_end as int, sec_y_start as int, sec_y_end as int),
            forall|x: int, y: int|
                #[trigger] in_range(x, y, sec_x_start as int, sec_x_end as int, sec_y_start as int, sec_y_end as int)
                    && !old(self)@.loaded_sections[x][y] ==> section_encodable(*world, x as usize, y as usize),
        ensures
            final(self)@ == (ClientView { loaded_sections: final(self)@.loaded_sections, ..old(self)@ }),
            r matches Ok(msgs) && carries_sections(
                msgs@,
                *world,
                pending_sections(
                    old(self)@.loaded_sections,
                    sec_x_start as int,
                    sec_x_end as int,
                    sec_y_start as int,
                    sec_y_end as int,
                ),
            ),
            marked_sent(
                old(self)@.loaded_sections,
                final(self)@.loaded_sections,
                sec_x_start as int,
                sec_x_end as int,
                sec_y_start as int,
                sec_y_end as int,
            ),
    {
        let mut msgs: Vec<Message> = Vec::new();
        let ghost before = self@.loaded_sections;
        let ghost c0 = self@;
        assert(before == old(self)@.loaded_sections);
        let mut x = sec_x_start;
        while x < sec_x_end
            invariant
                sec_x_start <= x,
                sec_x_start < sec_x_end ==> x <= sec_x_end,
                sec_x_end <= sec_x_start ==> x == sec_x_start,
                before == old(self)@.loaded_sections,
                c0 == old(self)@,
                self@ == (ClientView { loaded_sections: self@.loaded_sections, ..c0 }),
                covers(before, sec_x_start as int, sec_x_end as int, sec_y_start as int, sec_y_end as int),
                forall|a: int, b: int|
                    #[trigger] in_range(a, b, sec_x_start as int, sec_x_end as int, sec_y_start as int, sec_y_end as int)
                        && !before[a][b] ==> section_encodable(*world, a as usize, b as usize),
                carries_sections(
                    msgs@,
                    *world,
                    pending_sections(before, sec_x_start as int, x as int, sec_y_start as int, sec_y_end as int),
                ),
                marked_sent(before, self@.loaded_sections, sec_x_start as int, x as int, sec_y_start as int, sec_y_end as int),
            decreases sec_x_end - x,
        {
            let mut y = sec_y_start;
            let ghost done = pending_sections(before, sec_x_start as int, x as int, sec_y_start as int, sec_y_end as int);
            assert(done + pending_in_column(before[x as int], x as int, sec_y_start as int, y as int) =~= done);
            while y < sec_y_end
                invariant
                    sec_x_start <= x < sec_x_end,
                    sec_y_start <= y,
                    sec_y_start < sec_y_end ==> y <= sec_y_end,
                    sec_y_end <= sec_y_start ==> y == sec_y_start,
                    before == old(self)@.loaded_sections,
                    c0 == old(self)@,
                    self@ == (ClientView { loaded_sections: self@.loaded_sections, ..c0 }),
                    covers(before, sec_x_start as int, sec_x_end as int, sec_y_start as int, sec_y_end as int),
                    forall|a: int, b: int|
                        #[trigger] in_range(a, b, sec_x_start as int, sec_x_end as int, sec_y_start as int, sec_y_end as int)
                            && !before[a][b] ==> section_encodable(*world, a as usize, b as usize),
                    done == pending_sections(before, sec_x_start as int, x as int, sec_y_start as int, sec_y_end as int),
                    carries_sections(msgs@, *world, done + pending_in_column(before[x as int], x as int, sec_y_start as int, y as int)),
                    self@.loaded_sections.len() == before.len(),
                    forall|a: int| 0 <= a < before.len() ==> (#[trigger] self@.loaded_sections[a]).len() == before[a].len(),
                    forall|a: int, b: int|
                        0 <= a < before.len() && 0 <= b < before[a].len() ==> #[trigger] self@.loaded_sections[a][b] == (before[a][b]
                            || in_range(a, b, sec_x_start as int, x as int, sec_y_start as int, sec_y_end as int) || (a == x
                            && sec_y_start <= b < y)),
                decreases sec_y_end - y,
            {
                let ghost col = pending_in_column(before[x as int], x as int, sec_y_start as int, y as int);
                assert(sec_y_end <= column_len(before, x as int));
                assert(x < before.len());
                assert(self@.loaded_sections[x as int].len() == before[x as int].len());
                assert(self@.loaded_sections[x as int] == self.loaded_sections@[x as int]@);
                if !self.is_sent(x, y) {
                    assert(in_range(x as int, y as int, sec_x_start as int, sec_x_end as int, sec_y_start as int, sec_y_end as int));
                    assert(!before[x as int][y as int]);
                    self.mark_sent(x, y);
                    let m = match encode_tiles(world, x, y) {
                        Ok(m) => m,
                        Err(e) => {
                            return Err(e);
                        },
                    };
                    msgs.push(m);
                    assert(done + pending_in_column(before[x as int], x as int, sec_y_start as int, y + 1) =~= (done + col).push(
                        (x, y),
                    ));
                } else {
                    assert(done + pending_in_column(before[x as int], x as int, sec_y_start as int, y + 1) =~= done + col);
                }
                y = y + 1;
            }
            assert(pending_in_column(before[x as int], x as int, sec_y_start as int, y as int) == pending_in_column(
                before[x as int],
                x as int,
                sec_y_start as int,
                sec_y_end as int,
            ));
            assert(pending_sections(before, sec_x_start as int, x + 1, sec_y_start as int, sec_y_end as int) =~= done
                + pending_in_column(before[x as int], x as int, sec_y_start as int, sec_y_end as int));
            x = x + 1;
        }
        Ok(msgs)
    }

    /// Whether every section in columns `r.0..r.1` and rows `r.2..r.3` that is neither
    /// marked as sent nor in columns `skip.0..skip.1` and rows `skip.2..skip.3` can be
    /// encoded (see [`range_sendable`]).
    fn range_check(&self, world: &World, r: (usize, usize, usize, usize), skip: (usize, usize, usize, usize)) -> (b: bool)
        requires
            covers(self@.loaded_sections, r.0 as int, r.1 as int, r.2 as int, r.3 as int),
        ensures
            b == range_sendable(
                *world,
                mark_range(self@.loaded_sections, (skip.0 as int, skip.1 as int, skip.2 as int, skip.3 as int)),
                (r.0 as int, r.1 as int, r.2 as int, r.3 as int),
            ),
    {
        let ghost l = self@.loaded_sections;
        let ghost sk = (skip.0 as int, skip.1 as int, skip.2 as int, skip.3 as int);
        let ghost m = mark_range(l, sk);
        let mut x = r.0;
        while x < r.1
            invariant
                r.0 <= x,
                r.0 < r.1 ==> x <= r.1,
                l == self@.loaded_sections,
                sk == (skip.0 as int, skip.1 as int, skip.2 as int, skip.3 as int),
                m == mark_range(l, sk),
                covers(l, r.0 as int, r.1 as int, r.2 as int, r.3 as int),
                forall|a: int, b: int|
                    #[trigger] in_range(a, b, r.0 as int, x as int, r.2 as int, r.3 as int) && !m[a][b]
                        ==> section_encodable(*world, a as usize, b as usize),
            decreases r.1 - x,
        {
            let mut y = r.2;
            while y < r.3
                invariant
                    r.0 <= x < r.1,
                    r.2 <= y,
                    r.2 < r.3 ==> y <= r.3,
                    l == self@.loaded_sections,
                    sk == (skip.0 as int, skip.1 as int, skip.2 as int, skip.3 as int),
                    m == mark_range(l, sk),
                    covers(l, r.0 as int, r.1 as int, r.2 as int, r.3 as int),
                    forall|a: int, b: int|
                        #[trigger] in_range(a, b, r.0 as int, x as int, r.2 as int, r.3 as int) && !m[a][b]
                            ==> section_encodable(*world, a as usize, b as usize),
                    forall|b: int| r.2 <= b < y && !m[x as int][b] ==> section_encodable(*world, x, b as usize),
                decreases r.3 - y,
            {
                assert(column_len(l, x as int) >= r.3);
                assert(self@.loaded_sections[x as int] == self.loaded_sections@[x as int]@);
                assert(x < l.len() && y < l[x as int].len());
                let marked = self.is_sent(x, y) || (skip.0 <= x && x < skip.1 && skip.2 <= y && y < skip.3);
                proof {
                    lemma_mark_range_at(l, sk, x as int);
                }
                assert(m.len() == l.len());
                assert(m[x as int].len() == l[x as int].len());
                assert(m[x as int][y as int] == (l[x as int][y as int] || in_range(x as int, y as int, sk.0, sk.1, sk.2, sk.3)));
                assert(marked == m[x as int][y as int]);
                if !marked && !section_is_encodable(world, x, y) {
                    assert(in_range(x as int, y as int, r.0 as int, r.1 as int, r.2 as int, r.3 as int));
                    return false;
                }
                y = y + 1;
            }
            assert forall|a: int, b: int|
                #[trigger] in_range(a, b, r.0 as int, x + 1, r.2 as int, r.3 as int) && !m[a][b]
                    implies section_encodable(*world, a as usize, b as usize) by {
                if a < x {
                    assert(in_range(a, b, r.0 as int, x as int, r.2 as int, r.3 as int));
                }
            }
            x = x + 1;
        }
        true
    }

    /// Whether the client has been sent section (`x`, `y`).
    fn is_sent(&self, x: usize, y: usize) -> (b: bool)
        requires
            x < self.loaded_sections@.len(),
            y < self.loaded_sections@[x as int]@.len(),
        ensures
            b == self@.loaded_sections[x as int][y as int],
    {
        self.loaded_sections[x][y]
    }

    /// Marks section (`x`, `y`) as sent.
    fn mark_sent(&mut self, x: usize, y: usize)
        requires
            x < old(self).loaded_sections@.len(),
            y < old(self).loaded_sections@[x as int]@.len(),
        ensures
            final(self)@ == (ClientView {
                loaded_sections: old(self)@.loaded_sections.update(
                    x as int,
                    old(self)@.loaded_sections[x as int].update(y as int, true),
                ),
                ..old(self)@
            }),
    {
        self.loaded_sections.push(Vec::new());
        let mut column = self.loaded_sections.swap_remove(x);
        column.set(y, true);
        self.loaded_sections.set(x, column);
        assert(self@.loaded_sections =~= old(self)@.loaded_sections.update(
            x as int,
            old(self)@.loaded_sections[x as int].update(y as int, true),
        ));
    }
}

proof fn lemma_column_sent(column: Seq<bool>, x: int, ys: int, ye: int)
    requires
        forall|y: int| ys <= y < ye ==> #[trigger] column[y],
    ensures
        pending_in_column(column, x, ys, ye).len() == 0,
    decreases ye - ys,
{
    if ys < ye {
        lemma_column_sent(column, x, ys, ye - 1);
    }
}

proof fn lemma_all_sent(loaded: Seq<Seq<bool>>, xs: int, xe: int, ys: int, ye: int)
    requires
        forall|x: int, y: int| xs <= x < xe && ys <= y < ye ==> #[trigger] loaded[x][y],
    ensures
        pending_sections(loaded, xs, xe, ys, ye).len() == 0,
    decreases xe - xs,
{
    if xs < xe {
        lemma_all_sent(loaded, xs, xe - 1, ys, ye);
        assert forall|y: int| ys <= y < ye implies #[trigger] loaded[xe - 1][y] by {
            assert(loaded[xe - 1][y]);
        }
        lemma_column_sent(loaded[xe - 1], xe - 1, ys, ye);
    }
}

/// A section goes to a client once: when the sections in columns `xs..xe` and rows
/// `ys..ye` have been marked as sent, none of them is left to send.
pub proof fn lemma_sections_sent_once(
    before: Seq<Seq<bool>>,
    after: Seq<Seq<bool>>,
    xs: int,
    xe: int,
    ys: int,
    ye: int,
)
    requires
        0 <= xs,
        0 <= ys,
        covers(before, xs, xe, ys, ye),
        marked_sent(before, after, xs, xe, ys, ye),
    ensures
        pending_sections(after, xs, xe, ys, ye).len() == 0,
{
    assert forall|x: int, y: int| xs <= x && x < xe && ys <= y && y < ye implies #[trigger] after[x][y] by {
        assert(column_len(before, x) >= ye);
        assert(x < before.len());
        assert(in_range(x, y, xs, xe, ys, ye));
    }
    lemma_all_sent(after, xs, xe, ys, ye);
}

/// Section columns `r.0..r.1` and rows `r.2..r.3`, as [`get_sections_near`] gives them
/// for tile (`x`, `y`) in a world of `max_x` by `max_y` sections.
pub open spec fn sections_near(x: i32, y: i32, max_x: int, max_y: int) -> (int, int, int, int) {
    let xs = (x as usize) / SECTION_WIDTH - 2;
    let ys = (y as usize) / SECTION_HEIGHT - 1;
    (xs, if xs + 4 < max_x { xs + 4 } else { max_x }, ys, if ys + 2 < max_y { ys + 2 } else { max_y })
}

/// The marks of `loaded` with every section in columns `r.0..r.1` and rows `r.2..r.3`
/// marked as sent.
pub open spec fn mark_range(loaded: Seq<Seq<bool>>, r: (int, int, int, int)) -> Seq<Seq<bool>> {
    Seq::new(
        loaded.len(),
        |x: int| Seq::new(loaded[x].len(), |y: int| loaded[x][y] || in_range(x, y, r.0, r.1, r.2, r.3)),
    )
}

/// The sections in columns `r.0..r.1` and rows `r.2..r.3` that `loaded` does not mark
/// as sent, column by column.
pub open spec fn pending_in(loaded: Seq<Seq<bool>>, r: (int, int, int, int)) -> Seq<(usize, usize)> {
    pending_sections(loaded, r.0, r.1, r.2, r.3)
}

/// Every section in columns `r.0..r.1` and rows `r.2..r.3` that `loaded` does not mark
/// as sent can be encoded.
pub open spec fn range_sendable(world: World, loaded: Seq<Seq<bool>>, r: (int, int, int, int)) -> bool {
    forall|x: int, y: int|
        #[trigger] in_range(x, y, r.0, r.1, r.2, r.3) && !loaded[x][y] ==> section_encodable(world, x as usize, y as usize)
}

/// The marks have one column per section column of the world, each with one entry per
/// section row.
pub open spec fn sections_fit(loaded: Seq<Seq<bool>>, h: Header) -> bool {
    &&& loaded.len() == (h.width as usize) / SECTION_WIDTH
    &&& forall|x: int| 0 <= x < loaded.len() ==> (#[trigger] loaded[x]).len() == (h.height as usize) / SECTION_HEIGHT
}

/// The spawn request names a tile at least ten tiles inside the world's edges.
pub open spec fn inside_edges(sr: SpawnRequest, h: Header) -> bool {
    10 <= sr.x && sr.x <= h.width - 10 && 10 <= sr.y && sr.y <= h.height - 10
}

/// The section range around the world's spawn point.
pub open spec fn spawn_range(h: Header) -> (int, int, int, int) {
    sections_near(
        h.spawn_tile_x,
        h.spawn_tile_y,
        ((h.width as usize) / SECTION_WIDTH) as int,
        ((h.height as usize) / SECTION_HEIGHT) as int,
    )
}

/// The section range around the requested point, one section narrower at the far edges.
pub open spec fn request_range(sr: SpawnRequest, h: Header) -> (int, int, int, int) {
    sections_near(sr.x, sr.y, (h.width as usize) / SECTION_WIDTH - 1, (h.height as usize) / SECTION_HEIGHT - 1)
}

/// The kill count messages for the first 290 entries of `counts`, in order, each with
/// its index.
pub open spec fn kill_counts(counts: Seq<i32>) -> Seq<Message> {
    Seq::new(
        if counts.len() < 290 { counts.len() } else { 290 },
        |i: int| Message::KillCount(KillCount { id: i as u16, amount: counts[i] as u32 }),
    )
}

/// A spawn request from a client whose record is `c` can be served without fault: the
/// world has an id, the spawn point lies past the second section column and the first
/// section row, every section to be sent around it can be encoded, and likewise around
/// the requested point when it lies inside the edges.
pub open spec fn spawn_servable(world: World, c: ClientView, sr: SpawnRequest) -> bool {
    let h = world.header;
    c.state == ConnectionState::DetailsReceived ==> {
        &&& h.uuid is Some
        &&& (h.spawn_tile_x as usize) / SECTION_WIDTH >= 2
        &&& (h.spawn_tile_y as usize) / SECTION_HEIGHT >= 1
        &&& range_sendable(world, c.loaded_sections, spawn_range(h))
        &&& inside_edges(sr, h) ==> {
            &&& (h.width as usize) / SECTION_WIDTH >= 1
            &&& (h.height as usize) / SECTION_HEIGHT >= 1
            &&& (sr.x as usize) / SECTION_WIDTH >= 2
            &&& (sr.y as usize) / SECTION_HEIGHT >= 1
            &&& range_sendable(world, mark_range(c.loaded_sections, spawn_range(h)), request_range(sr, h))
        }
    }
}

/// How a client whose record was `c` is answered when it asks to spawn with `sr`. Before
/// its details were received it is refused. Otherwise it is sent the world header, the
/// sections around the spawn point that it has not been sent, then those around the
/// requested point when that lies inside the edges, then the kill counts; the sections
/// sent are marked, and nothing is relayed.
pub open spec fn spawn_answered(
    world: World,
    surface_row: i16,
    rock_row: i16,
    c: ClientView,
    sr: SpawnRequest,
    next: ClientView,
    replies: Seq<Message>,
    relays: Seq<(Message, Option<usize>)>,
) -> bool {
    let h = world.header;
    if c.state != ConnectionState::DetailsReceived {
        refused(c, "LegacyMultiplayer.1"@, next, replies, relays)
    } else {
        let ghost first = spawn_range(h);
        let marked = mark_range(c.loaded_sections, first);
        let near = inside_edges(sr, h);
        let s1 = pending_in(c.loaded_sections, first);
        let s2 = if near { pending_in(marked, request_range(sr, h)) } else { Seq::empty() };
        let kills = kill_counts(h.npc_kill_counts@);
        let n1: int = s1.len() as int + 1;
        let n2: int = n1 + s2.len() as int;
        &&& next == (ClientView {
            loaded_sections: if near { mark_range(marked, request_range(sr, h)) } else { marked },
            ..c
        })
        &&& relays.len() == 0
        &&& replies.len() == n2 + kills.len()
        &&& replies[0] matches Message::WorldHeader(w) && world_header_from(w, h, surface_row, rock_row)
        &&& carries_sections(replies.subrange(1, n1), world, s1)
        &&& carries_sections(replies.subrange(n1, n2), world, s2)
        &&& replies.subrange(n2, replies.len() as int) == kills
    }
}

/// Marking a range keeps the shape of the marks and marks exactly the sections in it.
proof fn lemma_mark_range_at(l: Seq<Seq<bool>>, r: (int, int, int, int), x: int)
    requires
        0 <= x < l.len(),
    ensures
        mark_range(l, r).len() == l.len(),
        mark_range(l, r)[x].len() == l[x].len(),
        forall|y: int| 0 <= y < l[x].len() ==> #[trigger] mark_range(l, r)[x][y] == (l[x][y] || in_range(x, y, r.0, r.1, r.2, r.3)),
{
}

/// Marks that fit the world cover every range inside the world's sections.
proof fn lemma_fit_covers(loaded: Seq<Seq<bool>>, h: Header, xs: int, xe: int, ys: int, ye: int)
    requires
        sections_fit(loaded, h),
        0 <= xs,
        xe <= (h.width as usize) / SECTION_WIDTH,
        ye <= (h.height as usize) / SECTION_HEIGHT,
    ensures
        covers(loaded, xs, xe, ys, ye),
{
    assert forall|a: int| #![trigger column_len(loaded, a)] xs <= a && a < xe && ys < ye implies (a < loaded.len() && ye
        <= column_len(loaded, a)) by {
    }
}

/// Marking a range keeps marks that fit the world fitting it.
proof fn lemma_mark_range_fit(l: Seq<Seq<bool>>, sk: (int, int, int, int), h: Header)
    requires
        sections_fit(l, h),
    ensures
        sections_fit(mark_range(l, sk), h),
{
    assert forall|a: int| 0 <= a < l.len() implies #[trigger] mark_range(l, sk)[a].len() == (h.height as usize) / SECTION_HEIGHT by {
        lemma_mark_range_at(l, sk, a);
    }
}

/// What `encode_sections` leaves is the marks with the range marked.
proof fn lemma_marked_range(before: Seq<Seq<bool>>, after: Seq<Seq<bool>>, r: (int, int, int, int))
    requires
        marked_sent(before, after, r.0, r.1, r.2, r.3),
    ensures
        after == mark_range(before, r),
{
    let m = mark_range(before, r);
    assert forall|x: int| 0 <= x < after.len() implies after[x] =~= m[x] by {
        assert(after[x].len() == before[x].len());
    }
    assert(after =~= m);
}

/// Once a spawn request has been answered, no section around the world's spawn point
/// is left to be sent to that client: a second request sends none of them again.
pub proof fn lemma_spawn_sections_sent(
    world: World,
    surface_row: i16,
    rock_row: i16,
    c: ClientView,
    sr: SpawnRequest,
    next: ClientView,
    replies: Seq<Message>,
    relays: Seq<(Message, Option<usize>)>,
)
    requires
        c.state == ConnectionState::DetailsReceived,
        sections_fit(c.loaded_sections, world.header),
        spawn_servable(world, c, sr),
        spawn_answered(world, surface_row, rock_row, c, sr, next, replies, relays),
    ensures
        pending_in(next.loaded_sections, spawn_range(world.header)).len() == 0,
{
    let h = world.header;
    let l = c.loaded_sections;
    let first = spawn_range(h);
    let m1 = mark_range(l, first);
    let second = request_range(sr, h);
    lemma_fit_covers(l, h, first.0, first.1, first.2, first.3);
    assert forall|x: int, y: int| first.0 <= x < first.1 && first.2 <= y < first.3 implies #[trigger] next.loaded_sections[x][y] by {
        assert(column_len(l, x) >= first.3);
        lemma_mark_range_at(l, first, x);
        assert(in_range(x, y, first.0, first.1, first.2, first.3));
        assert(m1[x][y]);
        if inside_edges(sr, h) {
            lemma_mark_range_at(m1, second, x);
        }
    }
    lemma_all_sent(next.loaded_sections, first.0, first.1, first.2, first.3);
}

/// The server: the world, the password (empty for none), a slot for each client, and
/// the rows of the world's surface and rock layer as the world header message carries
/// them.
pub struct Server {
    pub world: World,
    pub password: String,
    pub clients: Vec<Option<Client>>,
    pub surface_row: i16,
    pub rock_row: i16,
}

impl Server {
    /// The slots, and the record of each connected client, whose marks of the sections
    /// sent fit the world.
    pub open spec fn wf(&self) -> bool {
        &&& self.clients@.len() == MAX_CLIENTS
        &&& forall|i: int|
            0 <= i < self.clients@.len() ==> ((#[trigger] self.clients@[i]) matches Some(c) ==> c.wf() && sections_fit(
                c@.loaded_sections,
                self.world.header,
            ))
    }

    /// A server with every slot free.
    pub fn new(world: World, password: &str, surface_row: i16, rock_row: i16) -> (s: Self)
        ensures
            s.wf(),
            s.world == world,
            s.password@ == password@,
            s.surface_row == surface_row,
            s.rock_row == rock_row,
            forall|i: int| 0 <= i < s.clients@.len() ==> s.clients@[i] is None,
    {
        let mut clients: Vec<Option<Client>> = Vec::new();
        let mut i: usize = 0;
        while i < MAX_CLIENTS
            invariant
                i <= MAX_CLIENTS,
                clients@.len() == i,
                forall|j: int| 0 <= j < clients@.len() ==> clients@[j] is None,
            decreases MAX_CLIENTS - i,
        {
            clients.push(None);
            i = i + 1;
        }
        Server { world, password: password.to_owned(), clients, surface_row, rock_row }
    }

    /// Gives a connecting client the first free slot, or, when all are taken, the
    /// refusal to send it.
    pub fn connect(&mut self) -> (r: Result<usize, Message>)
        requires
            old(self).wf(),
        ensures
            final(self).wf(),
            final(self).world == old(self).world,
            final(self).password == old(self).password,
            final(self).surface_row == old(self).surface_row,
            final(self).rock_row == old(self).rock_row,
            match r {
                Ok(id) => {
                    &&& id < MAX_CLIENTS
                    &&& old(self).clients@[id as int] is None
                    &&& forall|j: int| 0 <= j < id ==> old(self).clients@[j] is Some
                    &&& final(self).clients@[id as int] matches Some(c) && c.state == ConnectionState::New
                        && c.uuid is None && c.details is None && c.health is None && c.mana is None
                        && c.buffs is None && c.loadout is None
                        && (forall|i: int| 0 <= i < c.inventory@.len() ==> c.inventory@[i] is None)
                        && c.loaded_sections@.len() == (old(self).world.header.width as usize) / SECTION_WIDTH
                        && (forall|x: int| 0 <= x < c.loaded_sections@.len() ==> (#[trigger] c.loaded_sections@[x])@.len()
                            == (old(self).world.header.height as usize) / SECTION_HEIGHT
                            && forall|y: int| 0 <= y < c.loaded_sections@[x]@.len() ==> !c.loaded_sections@[x]@[y])
                    &&& forall|j: int| 0 <= j < MAX_CLIENTS && j != id ==> final(self).clients@[j] == old(self).clients@[j]
                },
                Err(m) => {
                    &&& forall|j: int| 0 <= j < MAX_CLIENTS ==> old(self).clients@[j] is Some
                    &&& refusal(m, "CLI.ServerIsFull"@)
                    &&& final(self).clients == old(self).clients
                },
            },
            names_unique(old(self).clients@) ==> names_unique(final(self).clients@),
    {
        let mut i: usize = 0;
        while i < self.clients.len()
            invariant
                i <= self.clients@.len(),
                self.clients@.len() == MAX_CLIENTS,
                forall|j: int| 0 <= j < i ==> self.clients@[j] is Some,
                self.world == old(self).world,
                self.password == old(self).password,
                self.clients == old(self).clients,
                self.surface_row == old(self).surface_row,
                self.rock_row == old(self).rock_row,
                old(self).wf(),
            decreases self.clients.len() - i,
        {
            if self.clients[i].is_none() {
                let width = get_section_x(self.world.header.width as usize);
                let height = get_section_y(self.world.header.height as usize);
                self.clients.set(i, Some(Client::new(width, height)));
                return Ok(i);
            }
            i = i + 1;
        }
        Err(refuse("CLI.ServerIsFull"))
    }

    /// Whether a connected player already has the name `name`.
    fn name_in_use(&self, name: &String) -> (b: bool)
        ensures
            b == name_taken(self.clients@, name@),
    {
        let mut i: usize = 0;
        while i < self.clients.len()
            invariant
                i <= self.clients@.len(),
                forall|j: int| 0 <= j < i ==> !holds_name(#[trigger] self.clients@[j], name@),
            decreases self.clients.len() - i,
        {
            match &self.clients[i] {
                Some(c) => match &c.details {
                    Some(d) => {
                        if d.name == *name {
                            return true;
                        }
                    },
                    None => {},
                },
                None => {},
            }
            i = i + 1;
        }
        false
    }

    /// Answers a message from the client in slot `src`. A world request is answered
    /// with the world header, a spawn request as [`spawn_answered`] says, and any other
    /// message as [`answered`] says, the name check going over every connected player.
    /// The other clients' records stay as they are.
    pub fn handle_message(&mut self, msg: Message, src: usize) -> (r: (Vec<Message>, Vec<(Message, Option<usize>)>))
        requires
            old(self).wf(),
            src < MAX_CLIENTS,
            old(self).clients@[src as int] is Some,
            msg is WorldRequest ==> old(self).world.header.uuid is Some,
            msg matches Message::SpawnRequest(sr) ==> spawn_servable(old(self).world, old(self).clients@[src as int]->0@, sr),
        ensures
            final(self).wf(),
            final(self).world == old(self).world,
            final(self).password == old(self).password,
            final(self).surface_row == old(self).surface_row,
            final(self).rock_row == old(self).rock_row,
            forall|j: int| 0 <= j < MAX_CLIENTS && j != src ==> final(self).clients@[j] == old(self).clients@[j],
            final(self).clients@[src as int] is Some,
            names_unique(old(self).clients@) ==> names_unique(final(self).clients@),
            msg is WorldRequest ==> {
                &&& final(self).clients@[src as int] == old(self).clients@[src as int]
                &&& r.0@.len() == 1
                &&& r.0@[0] matches Message::WorldHeader(w) && world_header_from(
                    w,
                    old(self).world.header,
                    old(self).surface_row,
                    old(self).rock_row,
                )
                &&& r.1@.len() == 0
            },
            msg matches Message::SpawnRequest(sr) ==> spawn_answered(
                old(self).world,
                old(self).surface_row,
                old(self).rock_row,
                old(self).clients@[src as int]->0@,
                sr,
                final(self).clients@[src as int]->0@,
                r.0@,
                r.1@,
            ),
            !(msg is WorldRequest || msg is SpawnRequest) ==> answered(
                old(self).clients@[src as int]->0@,
                msg,
                src as u8,
                old(self).password@,
                name_taken_by(old(self).clients@, msg),
                final(self).clients@[src as int]->0@,
                r.0@,
                r.1@,
            ),
    {
        if let Message::WorldRequest = msg {
            let mut replies: Vec<Message> = Vec::new();
            replies.push(encode_world_header(&self.world.header, self.surface_row, self.rock_row));
            return (replies, Vec::new());
        }
        if let Message::SpawnRequest(sr) = msg {
            let ghost before = self.clients@;
            let r = self.answer_spawn(sr, src);
            proof {
                if names_unique(before) {
                    lemma_names_kept(before, self.clients@, src as int, msg, self.password@, r.0@, r.1@);
                }
            }
            return r;
        }
        let taken = match &msg {
            Message::PlayerDetails(pd) => self.name_in_use(&pd.name),
            _ => false,
        };
        let ghost before = self.clients@;
        self.clients.push(None);
        let slot = self.clients.swap_remove(src);
        let mut c = slot.unwrap();
        let ghost c0 = c@;
        let r = c.handle(msg, src as u8, &self.password, taken);
        proof {
            lemma_answered_keeps_sections(c0, msg, src as u8, self.password@, taken, c@, r.0@, r.1@);
        }
        self.clients.set(src, Some(c));
        proof {
            if names_unique(before) {
                lemma_names_kept(before, self.clients@, src as int, msg, self.password@, r.0@, r.1@);
            }
        }
        r
    }

    /// Answers a spawn request from the client in slot `src`: see [`spawn_answered`].
    #[verifier::rlimit(40)]
    fn answer_spawn(&mut self, sr: SpawnRequest, src: usize) -> (r: (Vec<Message>, Vec<(Message, Option<usize>)>))
        requires
            old(self).wf(),
            src < MAX_CLIENTS,
            old(self).clients@[src as int] is Some,
            spawn_servable(old(self).world, old(self).clients@[src as int]->0@, sr),
        ensures
            final(self).wf(),
            final(self).world == old(self).world,
            final(self).password == old(self).password,
            final(self).surface_row == old(self).surface_row,
            final(self).rock_row == old(self).rock_row,
            forall|j: int| 0 <= j < MAX_CLIENTS && j != src ==> final(self).clients@[j] == old(self).clients@[j],
            final(self).clients@[src as int] is Some,
            spawn_answered(
                old(self).world,
                old(self).surface_row,
                old(self).rock_row,
                old(self).clients@[src as int]->0@,
                sr,
                final(self).clients@[src as int]->0@,
                r.0@,
                r.1@,
            ),
    {
        let ghost h = self.world.header;
        let ghost c0 = self.clients@[src as int]->0@;
        let state = match &self.clients[src] {
            Some(c) => c.state,
            None => ConnectionState::New,
        };
        if state != ConnectionState::DetailsReceived {
            let mut replies: Vec<Message> = Vec::new();
            replies.push(refuse("LegacyMultiplayer.1"));
            return (replies, Vec::new());
        }
        self.clients.push(None);
        let slot = self.clients.swap_remove(src);
        let mut c = slot.unwrap();
        assert(c@ == c0);
        let mut replies: Vec<Message> = Vec::new();
        replies.push(encode_world_header(&self.world.header, self.surface_row, self.rock_row));
        let x_max = get_section_x(self.world.header.width as usize);
        let y_max = get_section_y(self.world.header.height as usize);
        let (xs, xe, ys, ye) = get_sections_near(
            self.world.header.spawn_tile_x,
            self.world.header.spawn_tile_y,
            x_max,
            y_max,
        );
        let ghost first = spawn_range(h);
        assert((xs as int, xe as int, ys as int, ye as int) == first);
        assert(sections_fit(c0.loaded_sections, h));
        proof {
            lemma_fit_covers(c0.loaded_sections, h, first.0, first.1, first.2, first.3);
        }
        let sent = c.encode_sections(&self.world, xs, xe, ys, ye);
        proof {
            lemma_marked_range(c0.loaded_sections, c@.loaded_sections, first);
            lemma_mark_range_fit(c0.loaded_sections, first, h);
        }
        let ghost marked = c@.loaded_sections;
        let ghost s1 = pending_in(c0.loaded_sections, first);
        if let Ok(msgs) = sent {
            move_all(&mut replies, msgs);
        }
        let ghost n1 = replies@.len() as int;
        let near = sr.x >= 10 && (sr.x as i64) <= (self.world.header.width as i64) - 10 && sr.y >= 10 && (sr.y
            as i64) <= (self.world.header.height as i64) - 10;
        assert(near == inside_edges(sr, h));
        if near {
            let (xs, xe, ys, ye) = get_sections_near(sr.x, sr.y, x_max - 1, y_max - 1);
            assert((xs as int, xe as int, ys as int, ye as int) == request_range(sr, h));
            proof {
                lemma_fit_covers(marked, h, xs as int, xe as int, ys as int, ye as int);
            }
            let sent = c.encode_sections(&self.world, xs, xe, ys, ye);
            proof {
                lemma_marked_range(marked, c@.loaded_sections, request_range(sr, h));
                lemma_mark_range_fit(marked, request_range(sr, h), h);
            }
            if let Ok(msgs) = sent {
                move_all(&mut replies, msgs);
            }
        }
        let ghost n2 = replies@.len() as int;
        let ghost before_kills = replies@;
        push_kill_counts(&self.world.header.npc_kill_counts, &mut replies);
        proof {
            assert(replies@.subrange(1, n1) =~= before_kills.subrange(1, n1));
            assert(replies@.subrange(n1, n2) =~= before_kills.subrange(n1, n2));
            assert(replies@.subrange(n2, replies@.len() as int) =~= kill_counts(h.npc_kill_counts@));
        }
        self.clients.set(src, Some(c));
        (replies, Vec::new())
    }

    /// Whether a spawn request `sr` from the client in slot `src` can be served without
    /// fault (see [`spawn_servable`]).
    pub fn can_serve_spawn(&self, src: usize, sr: SpawnRequest) -> (b: bool)
        requires
            self.wf(),
            src < MAX_CLIENTS,
            self.clients@[src as int] is Some,
        ensures
            b == spawn_servable(self.world, self.clients@[src as int]->0@, sr),
    {
        let c = match &self.clients[src] {
            Some(c) => c,
            None => return true,
        };
        if c.state != ConnectionState::DetailsReceived {
            return true;
        }
        let h = &self.world.header;
        let ghost l = c@.loaded_sections;
        match &h.uuid {
            Some(_) => {},
            None => return false,
        }
        if get_section_x(h.spawn_tile_x as usize) < 2 || get_section_y(h.spawn_tile_y as usize) < 1 {
            return false;
        }
        let x_max = get_section_x(h.width as usize);
        let y_max = get_section_y(h.height as usize);
        let first = get_sections_near(h.spawn_tile_x, h.spawn_tile_y, x_max, y_max);
        assert(sections_fit(l, *h));
        proof {
            lemma_fit_covers(l, *h, first.0 as int, first.1 as int, first.2 as int, first.3 as int);
        }
        assert(mark_range(l, (0, 0, 0, 0)) =~= l) by {
            assert forall|a: int| 0 <= a < l.len() implies mark_range(l, (0, 0, 0, 0))[a] =~= l[a] by {}
        }
        if !c.range_check(&self.world, first, (0, 0, 0, 0)) {
            return false;
        }
        let near = sr.x >= 10 && (sr.x as i64) <= (h.width as i64) - 10 && sr.y >= 10 && (sr.y as i64) <= (
        h.height as i64) - 10;
        if !near {
            return true;
        }
        if x_max < 1 || y_max < 1 || get_section_x(sr.x as usize) < 2 || get_section_y(sr.y as usize) < 1 {
            return false;
        }
        let second = get_sections_near(sr.x, sr.y, x_max - 1, y_max - 1);
        proof {
            lemma_fit_covers(l, *h, second.0 as int, second.1 as int, second.2 as int, second.3 as int);
        }
        c.range_check(&self.world, second, first)
    }

    /// Frees the slot of a client that has left.
    pub fn disconnect(&mut self, src: usize)
        requires
            old(self).wf(),
            src < MAX_CLIENTS,
        ensures
            final(self).wf(),
            final(self).world == old(self).world,
            final(self).password == old(self).password,
            final(self).clients@ == old(self).clients@.update(src as int, None),
            names_unique(old(self).clients@) ==> names_unique(final(self).clients@),
    {
        self.clients.set(src, None);
    }
}

/// Moves every message of `msgs`, in order, to the end of `dst`.
fn move_all(dst: &mut Vec<Message>, msgs: Vec<Message>)
    ensures
        final(dst)@ == old(dst)@ + msgs@,
{
    let mut msgs = msgs;
    let ghost all = old(dst)@ + msgs@;
    while msgs.len() > 0
        invariant
            dst@ + msgs@ == all,
        decreases msgs.len(),
    {
        let ghost d = dst@;
        let ghost m0 = msgs@;
        let m = msgs.remove(0);
        dst.push(m);
        assert(dst@ + msgs@ =~= d + m0);
    }
    assert(dst@ =~= all);
}

/// Pushes the kill count messages of `counts` (see [`kill_counts`]) to the end of
/// `replies`.
fn push_kill_counts(counts: &Vec<i32>, replies: &mut Vec<Message>)
    ensures
        final(replies)@ == old(replies)@ + kill_counts(counts@),
{
    let mut i: usize = 0;
    while i < counts.len() && i < 290
        invariant
            i <= counts@.len(),
            i <= 290,
            replies@ == old(replies)@ + kill_counts(counts@).take(i as int),
        decreases 290 - i,
    {
        replies.push(Message::KillCount(KillCount { id: i as u16, amount: counts[i] as u32 }));
        assert(kill_counts(counts@).take(i + 1) =~= kill_counts(counts@).take(i as int).push(
            Message::KillCount(KillCount { id: i as u16, amount: counts@[i as int] as u32 }),
        ));
        i = i + 1;
    }
    assert(kill_counts(counts@).take(i as int) =~= kill_counts(counts@));
}

/// Answering a message other than a world or spawn request leaves the marks of the
/// sections sent as they were.
proof fn lemma_answered_keeps_sections(
    c: ClientView,
    msg: Message,
    src: u8,
    password: Seq<char>,
    name_taken: bool,
    next: ClientView,
    replies: Seq<Message>,
    relays: Seq<(Message, Option<usize>)>,
)
    requires
        answered(c, msg, src, password, name_taken, next, replies, relays),
    ensures
        next.loaded_sections == c.loaded_sections,
{
}

/// The slot holds a connected player named `name`.
pub open spec fn holds_name(slot: Option<Client>, name: Seq<char>) -> bool {
    slot matches Some(c) && c.details matches Some(d) && d.name@ == name
}

/// Some slot holds a connected player named `name`.
pub open spec fn name_taken(clients: Seq<Option<Client>>, name: Seq<char>) -> bool {
    exists|j: int| 0 <= j < clients.len() && holds_name(#[trigger] clients[j], name)
}

/// The name of the player in the slot, once it has sent its details.
pub open spec fn player_name(slot: Option<Client>) -> Option<Seq<char>> {
    match slot {
        Some(c) => match c.details {
            Some(d) => Some(d.name@),
            None => None,
        },
        None => None,
    }
}

/// No two connected players have the same name.
pub open spec fn names_unique(clients: Seq<Option<Client>>) -> bool {
    forall|i: int, j: int|
        0 <= i < clients.len() && 0 <= j < clients.len() && i != j && (#[trigger] player_name(clients[i])) is Some
            ==> player_name(clients[i]) != #[trigger] player_name(clients[j])
}

proof fn lemma_names_kept(
    before: Seq<Option<Client>>,
    after: Seq<Option<Client>>,
    src: int,
    msg: Message,
    password: Seq<char>,
    replies: Seq<Message>,
    relays: Seq<(Message, Option<usize>)>,
)
    requires
        names_unique(before),
        after.len() == before.len(),
        0 <= src < before.len(),
        before[src] is Some,
        after[src] is Some,
        forall|j: int| 0 <= j < before.len() && j != src ==> after[j] == before[j],
        msg is WorldRequest ==> after[src] == before[src],
        msg is SpawnRequest ==> after[src]->0@.details == before[src]->0@.details,
        !(msg is WorldRequest || msg is SpawnRequest) ==> answered(
            before[src]->0@,
            msg,
            src as u8,
            password,
            name_taken_by(before, msg),
            after[src]->0@,
            replies,
            relays,
        ),
    ensures
        names_unique(after),
{
    let c = before[src]->0;
    let n = after[src]->0;
    if n@.details == c@.details {
        assert(player_name(after[src]) == player_name(before[src]));
        assert forall|i: int, j: int|
            0 <= i < after.len() && 0 <= j < after.len() && i != j && (#[trigger] player_name(after[i])) is Some
                implies player_name(after[i]) != #[trigger] player_name(after[j]) by {
            assert(player_name(after[i]) == player_name(before[i]));
            assert(player_name(after[j]) == player_name(before[j]));
        }
    } else {
        lemma_details_accepted(c@, msg, src as u8, password, name_taken_by(before, msg), n@, replies, relays);
        let pd = msg->PlayerDetails_0;
        assert(player_name(after[src]) == Some(pd.name@));
        assert forall|j: int| 0 <= j < before.len() implies player_name(before[j]) != Some(pd.name@) by {
            if player_name(before[j]) == Some(pd.name@) {
                assert(holds_name(before[j], pd.name@));
            }
        }
        assert forall|i: int, j: int|
            0 <= i < after.len() && 0 <= j < after.len() && i != j && (#[trigger] player_name(after[i])) is Some
                implies player_name(after[i]) != #[trigger] player_name(after[j]) by {
            if i != src {
                assert(player_name(after[i]) == player_name(before[i]));
            }
            if j != src {
                assert(player_name(after[j]) == player_name(before[j]));
            }
        }
    }
}

/// Player details carry a name that a connected player already has.
pub open spec fn name_taken_by(clients: Seq<Option<Client>>, msg: Message) -> bool {
    match msg {
        Message::PlayerDetails(pd) => name_taken(clients, pd.name@),
        _ => false,
    }
}

/// The length of a frame's body (code and payload) from the length that starts the
/// frame, which counts its own two bytes; `None` for a length under two, which carries
/// no frame.
pub fn body_length(frame_length: u16) -> (r: Option<usize>)
    ensures
        r == (if frame_length < 2 { None } else { Some((frame_length - 2) as usize) }),
{
    if frame_length < 2 {
        None
    } else {
        Some((frame_length - 2) as usize)
    }
}

/// Whether a relayed message goes to the client in slot `dst`: to every client but the
/// one that the relay names.
pub fn relay_reaches(skip: Option<usize>, dst: usize) -> (b: bool)
    ensures
        b == (skip != Some(dst)),
{
    match skip {
        Some(id) => id != dst,
        None => true,
    }
}

/// The message refuses the connection, giving the localization key `key`.
pub open spec fn refusal(m: Message, key: Seq<char>) -> bool {
    m matches Message::ConnectionRefuse(t) && t@ == TextModel::Key(key, Seq::empty())
}

fn refuse(key: &str) -> (m: Message)
    ensures
        refusal(m, key@),
{
    let subs: Vec<Text> = Vec::new();
    assert(crate::binary::types::texts_model(subs) =~= Seq::<TextModel>::empty());
    let t = Text::Key(key.to_owned(), subs);
    Message::ConnectionRefuse(t)
}


/// A client is authenticated only by sending the server's game version while new to a
/// server without a password, or by sending the server's password.
pub proof fn lemma_authentication(
    c: ClientView,
    msg: Message,
    src: u8,
    password: Seq<char>,
    name_taken: bool,
    next: ClientView,
    replies: Seq<Message>,
    relays: Seq<(Message, Option<usize>)>,
)
    requires
        answered(c, msg, src, password, name_taken, next, replies, relays),
        c.state != ConnectionState::Authenticated,
        next.state == ConnectionState::Authenticated,
    ensures
        (msg matches Message::VersionIdentifier(v) && v@ == GAME_VERSION@ && password.len() == 0
            && c.state == ConnectionState::New) || (msg matches Message::PasswordResponse(p) && p@
            == password),
{
}

/// Player details are kept only from an authenticated client, and only when no
/// connected player has the name and the name is 1 to 20 bytes long; the client then
/// has sent its details.
pub proof fn lemma_details_accepted(
    c: ClientView,
    msg: Message,
    src: u8,
    password: Seq<char>,
    name_taken: bool,
    next: ClientView,
    replies: Seq<Message>,
    relays: Seq<(Message, Option<usize>)>,
)
    requires
        answered(c, msg, src, password, name_taken, next, replies, relays),
        next.details != c.details,
    ensures
        msg matches Message::PlayerDetails(pd) && c.state == ConnectionState::Authenticated && !name_taken
            && 0 < pd.name@.len() && name_bytes(pd.name@) <= MAX_NAME_LEN && next.details == Some(
            sanitized_details(pd, src),
        ) && next.state == ConnectionState::DetailsReceived,
{
}

/// The client id that a payload carries, for the payloads that carry one.
pub open spec fn payload_client(m: Message) -> Option<u8> {
    match m {
        Message::PlayerDetails(d) => Some(d.client_id),
        Message::PlayerInventorySlot(s) => Some(s.client_id),
        Message::PlayerHealth(h) => Some(h.client_id),
        Message::PlayerMana(p) => Some(p.client_id),
        Message::PlayerBuffs(b) => Some(b.client_id),
        Message::PlayerLoadout(l) => Some(l.client_id),
        _ => None,
    }
}

/// A message from a client is answered with at most one message, and relayed at most
/// once, to every other client, as a payload that names the sender's slot whatever
/// client id it arrived with.
pub proof fn lemma_relays_name_sender(
    c: ClientView,
    msg: Message,
    src: u8,
    password: Seq<char>,
    name_taken: bool,
    next: ClientView,
    replies: Seq<Message>,
    relays: Seq<(Message, Option<usize>)>,
)
    requires
        answered(c, msg, src, password, name_taken, next, replies, relays),
    ensures
        replies.len() <= 1,
        relays.len() <= 1,
        forall|i: int|
            0 <= i < relays.len() ==> relays[i].1 == Some(src as usize) && payload_client(#[trigger] relays[i].0)
                == Some(src),
{
}

} // verus!
