//! The supervisor: a single-threaded, message-driven actor owning the bar
//! buffer, the feed slots and the timer flags. Every external request,
//! feed line, feed exit and timer fire arrives as one message; handling a
//! message yields the ordered list of actions the surrounding runtime must
//! perform (spawning, signalling, arming timers, publishing).

use vstd::prelude::*;

use crate::bar::{bar_expired_at, bar_set_at, Bar};
use crate::conf::Conf;
use crate::run_of;
use crate::text::dec_digits_pad2;

verus! {

/// The supervisor's model of one live feed: its spawned child is the
/// leader of its own process group, so the group ID equals the PID.
pub struct FeedMeta {
    pub name: String,
    pub dir: String,
    pub pid: u32,
    pub last_output_ms: Option<u64>,
}

impl FeedMeta {
    pub fn get_name(&self) -> (r: &str)
        ensures
            r@ == self.name@,
    {
        self.name.as_str()
    }

    pub fn get_dir_path(&self) -> (r: &str)
        ensures
            r@ == self.dir@,
    {
        self.dir.as_str()
    }

    /// The feed's log file, under its directory.
    pub fn get_log_path(&self) -> (r: String)
        ensures
            r@ == self.dir@ + "/"@ + "log"@,
    {
        crate::conf::path_feed_log(self.dir.as_str())
    }

    pub fn get_last_output_time(&self) -> (r: Option<u64>)
        ensures
            r == self.last_output_ms,
    {
        self.last_output_ms
    }

    pub fn get_pid(&self) -> (r: u32)
        ensures
            r == self.pid,
    {
        self.pid
    }

    /// The feed's process group: the child is its group's leader, so the
    /// group ID is the PID.
    pub fn get_pgid(&self) -> (r: u32)
        ensures
            r == self.pid,
    {
        self.pid
    }

    pub fn set_last_output_time(&mut self, now_ms: u64)
        ensures
            *final(self) == (FeedMeta { last_output_ms: Some(now_ms), ..*old(self) }),
    {
        self.last_output_ms = Some(now_ms);
    }
}

/// The supervisor phase.
pub enum State {
    Off,
    On,
    Offing,
}

/// One message from the supervisor's queue.
pub enum Msg {
    On,
    Off,
    Reconf,
    Status,
    FeedExit { pos: usize, ok: bool },
    Expiration { pos: usize },
    Input { pos: usize, data: String, now_ms: u64 },
    Output,
}

/// What the runtime must do to start one feed.
pub struct SpawnSpec {
    pub pos: usize,
    pub name: String,
    pub dir: String,
    pub shell: String,
    pub cmd: String,
}

/// One effect the runtime performs after a message is handled, in order.
pub enum Action {
    ReplyOnOk,
    ReplyOnErr { reason: String },
    ReplyOffNow,
    DeferOffReply,
    SignalOffComplete,
    ReplyReconfOk,
    ReplyReconfErr { reason: String },
    LoadConf,
    GatherStatus,
    SpawnFeeds { specs: Vec<SpawnSpec> },
    StopFeed { pos: usize },
    CleanupFeed { pos: usize },
    ArmExpiry { pos: usize, delay_ms: u64 },
    ArmOutput { delay_ms: u64 },
    CancelExpiry { pos: usize },
    CancelOutput,
    DropX11,
    Publish { data: String },
}

/// The number of live feed slots.
pub open spec fn live_count(feeds: Seq<Option<FeedMeta>>) -> nat
    decreases feeds.len(),
{
    if feeds.len() == 0 {
        0
    } else {
        live_count(feeds.drop_last()) + if feeds.last() is Some {
            1 as nat
        } else {
            0 as nat
        }
    }
}

/// A stop request for every live feed, in slot order.
pub open spec fn stop_actions(feeds: Seq<Option<FeedMeta>>) -> Seq<Action>
    decreases feeds.len(),
{
    if feeds.len() == 0 {
        Seq::empty()
    } else {
        stop_actions(feeds.drop_last()) + if feeds.last() is Some {
            seq![Action::StopFeed { pos: (feeds.len() - 1) as usize }]
        } else {
            Seq::empty()
        }
    }
}

/// A cancel request for every armed expiry timer, in slot order.
pub open spec fn cancel_expiry_actions(timers: Seq<bool>) -> Seq<Action>
    decreases timers.len(),
{
    if timers.len() == 0 {
        Seq::empty()
    } else {
        cancel_expiry_actions(timers.drop_last()) + if timers.last() {
            seq![Action::CancelExpiry { pos: (timers.len() - 1) as usize }]
        } else {
            Seq::empty()
        }
    }
}

/// An expiry-timer arm request for each of the first `k` configured feeds
/// that carries a time-to-live, in slot order.
pub open spec fn expiry_arm_actions(feeds: Seq<crate::conf::Feed>, k: int) -> Seq<Action>
    decreases k,
{
    if k <= 0 {
        Seq::empty()
    } else {
        expiry_arm_actions(feeds, k - 1) + match feeds[k - 1].ttl_ms {
            Some(t) => seq![Action::ArmExpiry { pos: (k - 1) as usize, delay_ms: t }],
            None => Seq::empty(),
        }
    }
}

/// A bar as freshly built from the configuration: one empty slot per
/// feed, spaces for cleared slots, nothing shown yet.
pub open spec fn bar_fresh(conf: Conf, bar: Bar) -> bool {
    &&& bar.left_pad@ == conf.pad_left@
    &&& bar.separator@ == conf.sep@
    &&& bar.right_pad@ == conf.pad_right@
    &&& bar.clear_char == ' '
    &&& bar.expire_char == conf.expiry_character
    &&& !bar.shown
    &&& bar.slots@.len() == conf.feeds@.len()
    &&& forall|i: int| 0 <= i < conf.feeds@.len() ==> bar.spec_slots()[i] == Seq::<char>::empty()
}

/// The spawn request for feed `i`: its slot position, name and command,
/// the configured shell or the default, and the feed's directory under
/// the working directory.
pub open spec fn spawn_spec_ok(conf: Conf, dir: Seq<char>, i: int, s: SpawnSpec) -> bool {
    &&& s.pos == i
    &&& s.name@ == conf.feeds@[i].name@
    &&& s.dir@ == dir + "/"@ + "feeds"@ + "/"@ + dec_digits_pad2(i as nat) + "-"@
        + conf.feeds@[i].name@
    &&& s.cmd@ == conf.feeds@[i].cmd@
    &&& match conf.feeds@[i].shell {
        Some(sh) => s.shell@ == sh@,
        None => s.shell@ == "/bin/bash"@,
    }
}

pub struct Server {
    pub dir: String,
    pub conf: Conf,
    pub state: State,
    pub bar: Bar,
    pub feeds: Vec<Option<FeedMeta>>,
    pub expiration_timers: Vec<bool>,
    pub output_timer: bool,
    pub output_interval_ms: u64,
}

impl Server {
    /// Structural invariant: the feed and expiry-timer vectors run in
    /// parallel (both are drained only on the return to Off), both fit
    /// the bar, a dead slot keeps no armed expiry timer, and while On or
    /// Offing all three match the configured feed count.
    pub open spec fn inv(&self) -> bool {
        &&& self.feeds@.len() == self.expiration_timers@.len() || (self.state is Off
            && self.expiration_timers@.len() == 0)
        &&& self.feeds@.len() <= self.bar.slots@.len()
        &&& forall|i: int|
            0 <= i < self.feeds@.len() && i < self.expiration_timers@.len() && self.feeds@[i]
                is None ==> !(#[trigger] self.expiration_timers@[i])
        &&& (self.state is On || self.state is Offing) ==> {
            &&& self.feeds@.len() == self.conf.feeds@.len()
            &&& self.expiration_timers@.len() == self.conf.feeds@.len()
            &&& self.bar.slots@.len() == self.conf.feeds@.len()
        }
    }

    /// A quiescent supervisor: no feed alive, no expiry timer armed.
    pub open spec fn quiescent(&self) -> bool {
        &&& live_count(self.feeds@) == 0
        &&& self.expiration_timers@.len() == 0
    }

    /// A new supervisor starts Off with no feeds, a fresh bar, and the
    /// output timer armed once.
    pub fn new(conf: Conf, dir: String) -> (r: (Server, Vec<Action>))
        ensures
            r.0.inv(),
            r.0.state is Off,
            r.0.quiescent(),
            r.0.feeds@.len() == 0,
            r.0.conf == conf,
            r.0.dir == dir,
            bar_fresh(conf, r.0.bar),
            r.0.output_timer,
            r.0.output_interval_ms == conf.output_interval_ms,
            r.1@ == seq![Action::ArmOutput { delay_ms: conf.output_interval_ms }],
    {
        let bar = Bar::from_conf(&conf);
        let output_interval_ms = conf.output_interval_ms;
        let mut server = Server {
            dir,
            conf,
            state: State::Off,
            bar,
            feeds: Vec::new(),
            expiration_timers: Vec::new(),
            output_timer: false,
            output_interval_ms,
        };
        let mut actions: Vec<Action> = Vec::new();
        server.ensure_output_scheduled(&mut actions);
        proof {
            assert(actions@ =~= seq![Action::ArmOutput { delay_ms: conf.output_interval_ms }]);
        }
        (server, actions)
    }

    /// Arms the single output timer if it is not armed; publishing is
    /// thereby rate-limited to one per output interval.
    fn ensure_output_scheduled(&mut self, actions: &mut Vec<Action>)
        ensures
            *final(self) == (Server { output_timer: true, ..*old(self) }),
            old(self).output_timer ==> final(actions)@ == old(actions)@,
            !old(self).output_timer ==> final(actions)@ == old(actions)@.push(
                Action::ArmOutput { delay_ms: old(self).output_interval_ms },
            ),
    {
        if !self.output_timer {
            actions.push(Action::ArmOutput { delay_ms: self.output_interval_ms });
            self.output_timer = true;
        }
    }

    /// Arms a fresh expiry timer for slot `pos` if its feed has a
    /// time-to-live, superseding any timer already armed there.
    fn reschedule_expiration(&mut self, pos: usize, actions: &mut Vec<Action>)
        requires
            pos < old(self).conf.feeds@.len(),
            pos < old(self).expiration_timers@.len(),
        ensures
            match old(self).conf.feeds@[pos as int].ttl_ms {
                Some(t) => {
                    &&& *final(self) == (Server {
                        expiration_timers: final(self).expiration_timers,
                        ..*old(self)
                    })
                    &&& final(self).expiration_timers@ == old(self).expiration_timers@.update(
                        pos as int,
                        true,
                    )
                    &&& final(actions)@ == old(actions)@.push(
                        Action::ArmExpiry { pos, delay_ms: t },
                    )
                },
                None => {
                    &&& *final(self) == *old(self)
                    &&& final(actions)@ == old(actions)@
                },
            },
    {
        match self.conf.feeds[pos].ttl_ms {
            Some(t) => {
                actions.push(Action::ArmExpiry { pos, delay_ms: t });
                self.expiration_timers.set(pos, true);
            },
            None => {},
        }
    }

    /// Counts the live feed slots.
    fn count_live(&self) -> (r: usize)
        ensures
            r as nat == live_count(self.feeds@),
    {
        let mut r: usize = 0;
        let mut i: usize = 0;
        let n = self.feeds.len();
        proof {
            assert(self.feeds@.take(0) =~= Seq::<Option<FeedMeta>>::empty());
        }
        while i < n
            invariant
                i <= n,
                n == self.feeds@.len(),
                r <= i,
                r as nat == live_count(self.feeds@.take(i as int)),
            decreases n - i,
        {
            proof {
                assert(self.feeds@.take(i + 1).drop_last() =~= self.feeds@.take(i as int));
                assert(self.feeds@.take(i + 1).last() == self.feeds@[i as int]);
            }
            if self.feeds[i].is_some() {
                r = r + 1;
            }
            i = i + 1;
        }
        proof {
            assert(self.feeds@.take(n as int) =~= self.feeds@);
        }
        r
    }
}

impl Server {
    /// Handles one message from the queue and returns the ordered actions
    /// the runtime must perform, as `handle_spec` describes. A message
    /// the supervisor's own construction rules out — an expiry for a slot
    /// with no armed timer, an output tick with no armed output timer, an
    /// exit for a slot that holds no feed — is a programmer error and is
    /// excluded here.
    pub fn handle(&mut self, msg: Msg) -> (actions: Vec<Action>)
        requires
            old(self).inv(),
            match msg {
                Msg::Input { pos, .. } => !(old(self).state is Off) ==> pos < old(
                    self,
                ).feeds@.len(),
                Msg::Expiration { pos } => !(old(self).state is Off) ==> pos < old(
                    self,
                ).expiration_timers@.len() && old(self).expiration_timers@[pos as int],
                Msg::Output => !(old(self).state is Off) ==> old(self).output_timer,
                Msg::FeedExit { pos, .. } => pos < old(self).feeds@.len() && old(
                    self,
                ).feeds@[pos as int] is Some,
                _ => true,
            },
        ensures
            final(self).inv(),
            handle_spec(*old(self), *final(self), msg, actions@),
    {
        let mut actions: Vec<Action> = Vec::new();
        match msg {
            Msg::On => {
                match self.state {
                    State::On => {
                        actions.push(Action::ReplyOnOk);
                        proof {
                            assert(actions@ =~= seq![Action::ReplyOnOk]);
                        }
                    },
                    State::Offing => {
                        actions.push(
                            Action::ReplyOnErr {
                                reason: "Still offing. Not ready to turn back on.".to_owned(),
                            },
                        );
                    },
                    State::Off => {
                        self.bar = Bar::from_conf(&self.conf);
                        self.feeds = Vec::new();
                        self.expiration_timers = Vec::new();
                        let mut specs: Vec<SpawnSpec> = Vec::new();
                        let n = self.conf.feeds.len();
                        let mut i: usize = 0;
                        while i < n
                            invariant
                                i <= n,
                                n == self.conf.feeds@.len(),
                                *self == (Server {
                                    bar: self.bar,
                                    feeds: self.feeds,
                                    expiration_timers: self.expiration_timers,
                                    ..*old(self)
                                }),
                                bar_fresh(old(self).conf, self.bar),
                                self.feeds@.len() == 0,
                                self.expiration_timers@.len() == 0,
                                specs@.len() == i,
                                forall|j: int|
                                    0 <= j < i ==> spawn_spec_ok(
                                        old(self).conf,
                                        old(self).dir@,
                                        j,
                                        #[trigger] specs@[j],
                                    ),
                            decreases n - i,
                        {
                            let name = self.conf.feeds[i].name.clone();
                            let cmd = self.conf.feeds[i].cmd.clone();
                            let shell = match &self.conf.feeds[i].shell {
                                Some(sh) => sh.clone(),
                                None => crate::conf::default_shell(),
                            };
                            let dir = crate::conf::path_feed_dir(
                                self.dir.as_str(),
                                i,
                                name.as_str(),
                            );
                            specs.push(SpawnSpec { pos: i, name, dir, shell, cmd });
                            i = i + 1;
                        }
                        actions.push(Action::SpawnFeeds { specs });
                    },
                }
            },
            Msg::Off => {
                match self.state {
                    State::On => {
                        let n = self.feeds.len();
                        let mut i: usize = 0;
                        proof {
                            assert(self.feeds@.take(0) =~= Seq::<Option<FeedMeta>>::empty());
                            assert(actions@ =~= stop_actions(self.feeds@.take(0)));
                        }
                        while i < n
                            invariant
                                i <= n,
                                n == self.feeds@.len(),
                                *self == *old(self),
                                actions@ == stop_actions(self.feeds@.take(i as int)),
                            decreases n - i,
                        {
                            proof {
                                assert(self.feeds@.take(i + 1).drop_last() =~= self.feeds@.take(
                                    i as int,
                                ));
                                assert(self.feeds@.take(i + 1).last() == self.feeds@[i as int]);
                            }
                            if self.feeds[i].is_some() {
                                actions.push(Action::StopFeed { pos: i });
                                proof {
                                    assert(actions@ =~= stop_actions(self.feeds@.take(i as int))
                                        + seq![Action::StopFeed { pos: i }]);
                                }
                            }
                            i = i + 1;
                        }
                        proof {
                            assert(self.feeds@.take(n as int) =~= self.feeds@);
                        }
                        self.state = State::Offing;
                        actions.push(Action::DeferOffReply);
                    },
                    _ => {
                        actions.push(Action::ReplyOffNow);
                        proof {
                            assert(actions@ =~= seq![Action::ReplyOffNow]);
                        }
                    },
                }
            },
            Msg::Reconf => {
                match self.state {
                    State::Off => {
                        actions.push(Action::LoadConf);
                        proof {
                            assert(actions@ =~= seq![Action::LoadConf]);
                        }
                    },
                    _ => {
                        actions.push(
                            Action::ReplyReconfErr {
                                reason: "Can only reconfig in off state.".to_owned(),
                            },
                        );
                    },
                }
            },
            Msg::Status => {
                actions.push(Action::GatherStatus);
                proof {
                    assert(actions@ =~= seq![Action::GatherStatus]);
                }
            },
            Msg::Input { pos, data, now_ms } => {
                match self.state {
                    State::Off => {},
                    _ => {
                        // A dead slot still takes the line, but gets no
                        // expiry timer: a slot without a feed keeps no
                        // armed timer.
                        if self.feeds[pos].is_some() {
                            self.reschedule_expiration(pos, &mut actions);
                        }
                        self.bar.set(pos, data.as_str());
                        self.ensure_output_scheduled(&mut actions);
                        match &self.feeds[pos] {
                            Some(m) => {
                                let updated = FeedMeta {
                                    name: m.name.clone(),
                                    dir: m.dir.clone(),
                                    pid: m.pid,
                                    last_output_ms: Some(now_ms),
                                };
                                self.feeds.set(pos, Some(updated));
                            },
                            None => {},
                        }
                        proof {
                            let pre = *old(self);
                            if pre.conf.feeds@[pos as int].ttl_ms is Some
                                && pre.feeds@[pos as int] is Some {
                                let t = pre.conf.feeds@[pos as int].ttl_ms->Some_0;
                                if pre.output_timer {
                                    assert(actions@ =~= seq![
                                        Action::ArmExpiry { pos, delay_ms: t },
                                    ] + Seq::<Action>::empty());
                                } else {
                                    assert(actions@ =~= seq![
                                        Action::ArmExpiry { pos, delay_ms: t },
                                    ] + seq![
                                        Action::ArmOutput { delay_ms: pre.output_interval_ms },
                                    ]);
                                }
                            } else {
                                if pre.output_timer {
                                    assert(actions@ =~= Seq::<Action>::empty() + Seq::<
                                        Action,
                                    >::empty());
                                } else {
                                    assert(actions@ =~= Seq::<Action>::empty() + seq![
                                        Action::ArmOutput { delay_ms: pre.output_interval_ms },
                                    ]);
                                }
                            }
                        }
                    },
                }
            },
            Msg::Expiration { pos } => {
                match self.state {
                    State::Off => {},
                    _ => {
                        self.expiration_timers.set(pos, false);
                        self.bar.expire(pos);
                        self.ensure_output_scheduled(&mut actions);
                        proof {
                            if old(self).output_timer {
                                assert(actions@ =~= Seq::<Action>::empty());
                            } else {
                                assert(actions@ =~= seq![
                                    Action::ArmOutput { delay_ms: old(self).output_interval_ms },
                                ]);
                            }
                        }
                    },
                }
            },
            Msg::Output => {
                match self.state {
                    State::Off => {},
                    _ => {
                        self.output_timer = false;
                        match self.bar.show_unshown() {
                            Some(data) => {
                                actions.push(Action::Publish { data });
                            },
                            None => {},
                        }
                    },
                }
            },
            Msg::FeedExit { pos, ok: _ } => {
                actions.push(Action::CleanupFeed { pos });
                self.feeds.set(pos, None);
                // A slot without a feed keeps no armed expiry timer.
                if pos < self.expiration_timers.len() && self.expiration_timers[pos] {
                    actions.push(Action::CancelExpiry { pos });
                    self.expiration_timers.set(pos, false);
                }
                self.bar.expire(pos);
                match self.bar.show_unshown() {
                    Some(data) => {
                        actions.push(Action::Publish { data });
                    },
                    None => {},
                }
                let live = self.count_live();
                let offing = match self.state {
                    State::Offing => true,
                    _ => false,
                };
                if offing && live == 0 {
                    let ghost prefix = actions@;
                    let ghost timers_now = self.expiration_timers@;
                    let n = self.expiration_timers.len();
                    let mut i: usize = 0;
                    proof {
                        assert(timers_now.take(0) =~= Seq::<bool>::empty());
                        assert(actions@ =~= prefix + cancel_expiry_actions(timers_now.take(0)));
                    }
                    while i < n
                        invariant
                            i <= n,
                            n == timers_now.len(),
                            self.expiration_timers@ == timers_now,
                            actions@ == prefix + cancel_expiry_actions(timers_now.take(i as int)),
                        decreases n - i,
                    {
                        proof {
                            assert(timers_now.take(i + 1).drop_last() =~= timers_now.take(
                                i as int,
                            ));
                            assert(timers_now.take(i + 1).last() == timers_now[i as int]);
                        }
                        if self.expiration_timers[i] {
                            actions.push(Action::CancelExpiry { pos: i });
                            proof {
                                assert(actions@ =~= (prefix + cancel_expiry_actions(
                                    timers_now.take(i as int),
                                )) + seq![Action::CancelExpiry { pos: i }]);
                            }
                        }
                        i = i + 1;
                    }
                    proof {
                        assert(timers_now.take(n as int) =~= timers_now);
                    }
                    self.expiration_timers = Vec::new();
                    self.feeds = Vec::new();
                    if self.output_timer {
                        actions.push(Action::CancelOutput);
                        self.output_timer = false;
                    }
                    actions.push(Action::DropX11);
                    actions.push(Action::SignalOffComplete);
                    actions.push(Action::Publish { data: String::new() });
                    self.state = State::Off;
                    proof {
                        let pre = *old(self);
                        let had_timer = pos < pre.expiration_timers@.len()
                            && pre.expiration_timers@[pos as int];
                        let base0: int = if had_timer {
                            3
                        } else {
                            2
                        };
                        let cancels = cancel_expiry_actions(timers_now);
                        assert(actions@.subrange(base0, base0 + cancels.len() as int) =~= cancels);
                    }
                }
            },
        }
        actions
    }

    /// Installs the feeds the runtime has started in response to a spawn
    /// request, arming their expiry timers; with no error the supervisor
    /// turns On, otherwise the partial set stays installed and the
    /// supervisor stays Off, replying with the error.
    pub fn feeds_started(&mut self, started: Vec<FeedMeta>, error: Option<String>) -> (actions:
        Vec<Action>)
        requires
            old(self).inv(),
            old(self).state is Off,
            old(self).feeds@.len() == 0,
            old(self).expiration_timers@.len() == 0,
            old(self).bar.slots@.len() == old(self).conf.feeds@.len(),
            started@.len() <= old(self).conf.feeds@.len(),
            error is None ==> started@.len() == old(self).conf.feeds@.len(),
        ensures
            final(self).inv(),
            final(self).feeds@.len() == started@.len(),
            forall|i: int|
                0 <= i < started@.len() ==> final(self).feeds@[i] == Some(#[trigger] started@[i]),
            final(self).expiration_timers@.len() == started@.len(),
            forall|i: int|
                0 <= i < started@.len() ==> final(self).expiration_timers@[i] == (old(
                    self,
                ).conf.feeds@[i].ttl_ms is Some),
            error is None ==> final(self).state is On,
            error is Some ==> final(self).state is Off,
            *final(self) == (Server {
                feeds: final(self).feeds,
                expiration_timers: final(self).expiration_timers,
                output_timer: final(self).output_timer,
                state: final(self).state,
                ..*old(self)
            }),
            started@.len() > 0 ==> final(self).output_timer,
            started@.len() == 0 ==> final(self).output_timer == old(self).output_timer,
            actions@ == expiry_arm_actions(old(self).conf.feeds@, started@.len() as int) + (if started@.len() > 0 && !old(self).output_timer {
                seq![Action::ArmOutput { delay_ms: old(self).output_interval_ms }]
            } else {
                Seq::<Action>::empty()
            }) + seq![
                match error {
                    None => Action::ReplyOnOk,
                    Some(e) => Action::ReplyOnErr { reason: e },
                },
            ],
    {
        let mut actions: Vec<Action> = Vec::new();
        let mut started = started;
        let ghost s0 = started@;
        let k = started.len();
        let mut i: usize = 0;
        proof {
            assert(actions@ =~= expiry_arm_actions(old(self).conf.feeds@, 0));
        }
        while i < k
            invariant
                i <= k,
                k == s0.len(),
                started@ == s0.skip(i as int),
                s0.len() <= old(self).conf.feeds@.len(),
                *self == (Server {
                    feeds: self.feeds,
                    expiration_timers: self.expiration_timers,
                    ..*old(self)
                }),
                self.feeds@.len() == i,
                forall|j: int| 0 <= j < i ==> self.feeds@[j] == Some(#[trigger] s0[j]),
                self.expiration_timers@.len() == i,
                forall|j: int|
                    0 <= j < i ==> self.expiration_timers@[j] == (old(
                        self,
                    ).conf.feeds@[j].ttl_ms is Some),
                actions@ == expiry_arm_actions(old(self).conf.feeds@, i as int),
            decreases k - i,
        {
            let meta = started.remove(0);
            proof {
                assert(s0.skip(i as int)[0] == s0[i as int]);
                assert(s0.skip(i as int).subrange(1, s0.skip(i as int).len() as int) =~= s0.skip(
                    i + 1,
                ));
            }
            self.feeds.push(Some(meta));
            self.expiration_timers.push(false);
            self.reschedule_expiration(i, &mut actions);
            i = i + 1;
        }
        proof {
            assert(started@ =~= s0.skip(k as int));
        }
        let ghost arm_part = actions@;
        if k > 0 {
            self.ensure_output_scheduled(&mut actions);
        }
        let ghost out_part = actions@;
        match error {
            None => {
                self.state = State::On;
                actions.push(Action::ReplyOnOk);
                proof {
                    assert(actions@ =~= out_part + seq![Action::ReplyOnOk]);
                }
            },
            Some(e) => {
                actions.push(Action::ReplyOnErr { reason: e });
            },
        }
        proof {
            if k > 0 && !old(self).output_timer {
                assert(out_part =~= arm_part + seq![
                    Action::ArmOutput { delay_ms: old(self).output_interval_ms },
                ]);
            } else {
                assert(out_part =~= arm_part + Seq::<Action>::empty());
            }
            assert forall|i: int|
                0 <= i < self.feeds@.len() && i < self.expiration_timers@.len() && self.feeds@[i]
                    is None implies !self.expiration_timers@[i] by {
                assert(self.feeds@[i] == Some(s0[i]));
            }
        }
        actions
    }

    /// Installs a freshly loaded configuration while Off, or reports why
    /// loading failed. The output interval and the bar are untouched: the
    /// bar is rebuilt on the next turn-on.
    pub fn reconf_loaded(&mut self, loaded: Result<Conf, String>) -> (actions: Vec<Action>)
        requires
            old(self).inv(),
            old(self).state is Off,
        ensures
            final(self).inv(),
            match loaded {
                Ok(c) => {
                    &&& *final(self) == (Server { conf: c, ..*old(self) })
                    &&& actions@.len() == 1 && actions@[0] is ReplyReconfOk
                },
                Err(e) => {
                    &&& *final(self) == *old(self)
                    &&& actions@.len() == 1
                    &&& actions@[0] matches Action::ReplyReconfErr { reason } && reason == e
                },
            },
    {
        let mut actions: Vec<Action> = Vec::new();
        match loaded {
            Ok(c) => {
                self.conf = c;
                actions.push(Action::ReplyReconfOk);
            },
            Err(e) => {
                actions.push(Action::ReplyReconfErr { reason: e });
            },
        }
        actions
    }
}

/// The status row for one live feed: 1-based position, the feed's
/// identity, ages computed against `now` (absent when the reference
/// instant lies in the future, and for the log also when it is empty),
/// the count of newline-terminated log lines (zero when the log could
/// not be read), and the feed's process data.
pub open spec fn status_row_ok(
    row: crate::status::Feed,
    m: FeedMeta,
    g: crate::status::Gathered,
    now_ms: u64,
    pos: int,
) -> bool {
    &&& row.position == pos + 1
    &&& row.name@ == m.name@
    &&& row.dir@ == m.dir@
    &&& row.age_of_output_ms == match m.last_output_ms {
        Some(t) => if now_ms >= t {
            Some((now_ms - t) as u64)
        } else {
            None
        },
        None => None,
    }
    &&& row.age_of_log_ms == if g.log_size_bytes > 0 && now_ms >= g.log_mtime_ms {
        Some((now_ms - g.log_mtime_ms) as u64)
    } else {
        None
    }
    &&& row.log_size_bytes == g.log_size_bytes
    &&& row.log_lines as nat == match g.log_text {
        Some(t) => crate::text::newline_count(t@),
        None => 0,
    }
    &&& row.pid == m.pid
    &&& row.state == g.state
    &&& row.pdescendants@ == g.pdescendants@
}

/// The status rows for the first `k` slots: one row per live feed, in
/// slot order, dead slots skipped.
pub open spec fn status_rows_ok(
    feeds: Seq<Option<FeedMeta>>,
    gathered: Seq<Option<crate::status::Gathered>>,
    now_ms: u64,
    k: int,
    rows: Seq<crate::status::Feed>,
) -> bool
    decreases k,
{
    if k <= 0 {
        rows.len() == 0
    } else {
        match (feeds[k - 1], gathered[k - 1]) {
            (Some(m), Some(g)) => rows.len() > 0 && status_row_ok(rows.last(), m, g, now_ms, k - 1)
                && status_rows_ok(feeds, gathered, now_ms, k - 1, rows.drop_last()),
            _ => status_rows_ok(feeds, gathered, now_ms, k - 1, rows),
        }
    }
}

impl Server {
    /// A consistent status snapshot: up-with-feeds-off while no feed
    /// slot exists, else one row per live feed built from the gathered
    /// per-feed data. After a partial spawn failure the feed vector is
    /// shorter than the configuration; the rows then cover the
    /// installed prefix.
    pub fn status(
        &self,
        gathered: &Vec<Option<crate::status::Gathered>>,
        now_ms: u64,
    ) -> (r: crate::status::Status)
        requires
            gathered@.len() == self.conf.feeds@.len(),
        ensures
            self.feeds@.len() == 0 ==> r is UpOff,
            self.feeds@.len() > 0 ==> (r matches crate::status::Status::UpOn { feeds }
                && status_rows_ok(
                self.feeds@,
                gathered@,
                now_ms,
                if self.conf.feeds@.len() <= self.feeds@.len() {
                    self.conf.feeds@.len() as int
                } else {
                    self.feeds@.len() as int
                },
                feeds@,
            )),
    {
        if self.feeds.len() == 0 {
            return crate::status::Status::UpOff;
        }
        let mut rows: Vec<crate::status::Feed> = Vec::new();
        let n = if self.conf.feeds.len() <= self.feeds.len() {
            self.conf.feeds.len()
        } else {
            self.feeds.len()
        };
        let mut i: usize = 0;
        while i < n
            invariant
                i <= n,
                n <= self.conf.feeds@.len(),
                n <= self.feeds@.len(),
                self.conf.feeds@.len() == gathered@.len(),
                status_rows_ok(self.feeds@, gathered@, now_ms, i as int, rows@),
            decreases n - i,
        {
            match (&self.feeds[i], &gathered[i]) {
                (Some(m), Some(g)) => {
                    let age_of_output_ms = match m.last_output_ms {
                        Some(t) => if now_ms >= t {
                            Some(now_ms - t)
                        } else {
                            None
                        },
                        None => None,
                    };
                    let age_of_log_ms = if g.log_size_bytes > 0 && now_ms >= g.log_mtime_ms {
                        Some(now_ms - g.log_mtime_ms)
                    } else {
                        None
                    };
                    let log_lines = match &g.log_text {
                        Some(t) => crate::text::count_lines(t.as_str()),
                        None => 0,
                    };
                    let row = crate::status::Feed {
                        position: i + 1,
                        name: m.name.clone(),
                        dir: m.dir.clone(),
                        age_of_output_ms,
                        age_of_log_ms,
                        log_size_bytes: g.log_size_bytes,
                        log_lines,
                        pid: m.pid,
                        state: g.state,
                        pdescendants: crate::status::copy_procs(&g.pdescendants),
                    };
                    proof {
                        assert(status_row_ok(
                            row,
                            self.feeds@[i as int]->Some_0,
                            gathered@[i as int]->Some_0,
                            now_ms,
                            i as int,
                        ));
                        assert(rows@.push(row).drop_last() =~= rows@);
                    }
                    rows.push(row);
                },
                _ => {},
            }
            i = i + 1;
        }
        crate::status::Status::UpOn { feeds: rows }
    }
}

/// The supervisor's transition relation: how one handled message relates
/// the state before to the state after and to the emitted actions.
pub open spec fn handle_spec(pre: Server, post: Server, msg: Msg, actions: Seq<Action>) -> bool {
    match msg {
        Msg::On => match pre.state {
            State::On => post == pre && actions == seq![Action::ReplyOnOk],
            State::Offing => {
                &&& post == pre
                &&& actions.len() == 1
                &&& actions[0] matches Action::ReplyOnErr { reason } && reason@
                    == "Still offing. Not ready to turn back on."@
            },
            State::Off => {
                &&& post == (Server {
                    bar: post.bar,
                    feeds: post.feeds,
                    expiration_timers: post.expiration_timers,
                    ..pre
                })
                &&& bar_fresh(pre.conf, post.bar)
                &&& post.feeds@.len() == 0
                &&& post.expiration_timers@.len() == 0
                &&& post.state is Off
                &&& actions.len() == 1
                &&& actions[0] matches Action::SpawnFeeds { specs } && specs@.len()
                    == pre.conf.feeds@.len() && forall|i: int|
                    0 <= i < specs@.len() ==> spawn_spec_ok(pre.conf, pre.dir@, i, #[trigger] specs@[i])
            },
        },
        Msg::Off => match pre.state {
            State::On => {
                &&& post == (Server { state: State::Offing, ..pre })
                &&& actions == stop_actions(pre.feeds@).push(Action::DeferOffReply)
            },
            _ => post == pre && actions == seq![Action::ReplyOffNow],
        },
        Msg::Reconf => match pre.state {
            State::Off => post == pre && actions == seq![Action::LoadConf],
            _ => {
                &&& post == pre
                &&& actions.len() == 1
                &&& actions[0] matches Action::ReplyReconfErr { reason } && reason@
                    == "Can only reconfig in off state."@
            },
        },
        Msg::Status => post == pre && actions == seq![Action::GatherStatus],
        Msg::Input { pos, data, now_ms } => match pre.state {
            State::Off => post == pre && actions == Seq::<Action>::empty(),
            _ => {
                // The expiry timer is re-armed only while the slot's
                // feed is alive: a slot without a feed keeps no armed
                // timer. A line for a dead slot still fills the bar.
                let arm = pre.conf.feeds@[pos as int].ttl_ms is Some && pre.feeds@[pos as int]
                    is Some;
                &&& bar_set_at(pre.bar, post.bar, pos as int, data@)
                &&& post.expiration_timers@ == if arm {
                    pre.expiration_timers@.update(pos as int, true)
                } else {
                    pre.expiration_timers@
                }
                &&& post.feeds@ == match pre.feeds@[pos as int] {
                    Some(m) => pre.feeds@.update(
                        pos as int,
                        Some(FeedMeta { last_output_ms: Some(now_ms), ..m }),
                    ),
                    None => pre.feeds@,
                }
                &&& post.output_timer
                &&& post == (Server {
                    bar: post.bar,
                    expiration_timers: post.expiration_timers,
                    feeds: post.feeds,
                    output_timer: true,
                    ..pre
                })
                &&& actions == (if arm {
                    seq![
                        Action::ArmExpiry {
                            pos,
                            delay_ms: pre.conf.feeds@[pos as int].ttl_ms->Some_0,
                        },
                    ]
                } else {
                    Seq::<Action>::empty()
                }) + (if pre.output_timer {
                    Seq::<Action>::empty()
                } else {
                    seq![Action::ArmOutput { delay_ms: pre.output_interval_ms }]
                })
            },
        },
        Msg::Expiration { pos } => match pre.state {
            State::Off => post == pre && actions == Seq::<Action>::empty(),
            _ => {
                &&& bar_expired_at(pre.bar, post.bar, pos as int)
                &&& post == (Server {
                    bar: post.bar,
                    expiration_timers: post.expiration_timers,
                    output_timer: true,
                    ..pre
                })
                &&& post.expiration_timers@ == pre.expiration_timers@.update(pos as int, false)
                &&& actions == if pre.output_timer {
                    Seq::<Action>::empty()
                } else {
                    seq![Action::ArmOutput { delay_ms: pre.output_interval_ms }]
                }
            },
        },
        Msg::Output => match pre.state {
            State::Off => post == pre && actions == Seq::<Action>::empty(),
            _ => {
                if pre.bar.shown {
                    &&& post == (Server { output_timer: false, ..pre })
                    &&& actions == Seq::<Action>::empty()
                } else {
                    &&& post == (Server { bar: post.bar, output_timer: false, ..pre })
                    &&& post.bar == (Bar { shown: true, ..pre.bar })
                    &&& actions.len() == 1
                    &&& actions[0] matches Action::Publish { data } && data@ == pre.bar.spec_show()
                }
            },
        },
        Msg::FeedExit { pos, ok } => {
            let feeds1 = pre.feeds@.update(pos as int, None);
            // The dead slot's own expiry timer is cancelled with it: a
            // slot without a feed keeps no armed timer.
            let had_timer = pos < pre.expiration_timers@.len() && pre.expiration_timers@[pos as int];
            let timers1 = if had_timer {
                pre.expiration_timers@.update(pos as int, false)
            } else {
                pre.expiration_timers@
            };
            let drained = pre.state is Offing && live_count(feeds1) == 0;
            let cancels = cancel_expiry_actions(timers1);
            let base0: int = if had_timer {
                3
            } else {
                2
            };
            let base = base0 + cancels.len() + if pre.output_timer {
                1 as int
            } else {
                0 as int
            };
            &&& post.bar.shown
            &&& bar_expired_at(pre.bar, (Bar { shown: false, ..post.bar }), pos as int)
            &&& actions.len() >= base0
            &&& actions[0] == (Action::CleanupFeed { pos })
            &&& (had_timer ==> actions[1] == (Action::CancelExpiry { pos }))
            &&& actions[base0 - 1] matches Action::Publish { data } && data@
                == spec_show_after_expire(pre.bar, pos as int)
            &&& if drained {
                &&& post == (Server {
                    bar: post.bar,
                    feeds: post.feeds,
                    expiration_timers: post.expiration_timers,
                    output_timer: false,
                    state: State::Off,
                    ..pre
                })
                &&& post.feeds@.len() == 0
                &&& post.expiration_timers@.len() == 0
                &&& actions.len() == base + 3
                &&& actions.subrange(base0, base0 + cancels.len() as int) == cancels
                &&& (pre.output_timer ==> actions[base0 + cancels.len() as int]
                    == Action::CancelOutput)
                &&& actions[base] == Action::DropX11
                &&& actions[base + 1] == Action::SignalOffComplete
                &&& actions[base + 2] matches Action::Publish { data } && data@ == Seq::<
                    char,
                >::empty()
            } else {
                &&& post == (Server {
                    bar: post.bar,
                    feeds: post.feeds,
                    expiration_timers: post.expiration_timers,
                    ..pre
                })
                &&& post.feeds@ == feeds1
                &&& post.expiration_timers@ == timers1
                &&& actions.len() == base0
            }
        },
    }
}

/// The composed line after expiring slot `pos` of `bar`.
pub open spec fn spec_show_after_expire(bar: Bar, pos: int) -> Seq<char> {
    bar.left_pad@ + crate::bar::spec_join(
        bar.spec_slots().update(pos, run_of(bar.expire_char, bar.spec_slots()[pos].len())),
        bar.separator@,
    ) + bar.right_pad@
}

/// Every stop request names a feed slot.
proof fn lemma_stop_actions_are_stops(feeds: Seq<Option<FeedMeta>>)
    ensures
        forall|k: int| 0 <= k < stop_actions(feeds).len() ==> stop_actions(feeds)[k] is StopFeed,
    decreases feeds.len(),
{
    if feeds.len() > 0 {
        lemma_stop_actions_are_stops(feeds.drop_last());
    }
}

/// Every cancel request names an expiry timer.
proof fn lemma_cancel_actions_are_cancels(timers: Seq<bool>)
    ensures
        forall|k: int|
            0 <= k < cancel_expiry_actions(timers).len() ==> cancel_expiry_actions(
                timers,
            )[k] is CancelExpiry,
    decreases timers.len(),
{
    if timers.len() > 0 {
        lemma_cancel_actions_are_cancels(timers.drop_last());
    }
}

/// Slot-feed parity. While On or Offing, the feed vector, the
/// expiry-timer vector and the bar all have exactly one slot per
/// configured feed. The invariant is established by `Server::new` and
/// kept by every operation.
pub proof fn lemma_slot_feed_parity(s: Server)
    requires
        s.inv(),
        s.state is On || s.state is Offing,
    ensures
        s.feeds@.len() == s.conf.feeds@.len(),
        s.expiration_timers@.len() == s.conf.feeds@.len(),
        s.bar.slots@.len() == s.conf.feeds@.len(),
{
}

/// Off quiescence. A supervisor in Off drops feed input, expiry and
/// output ticks without any state change or action; and whenever a
/// handled message brings the supervisor from a running state into Off
/// — the Offing drain — no feed is left alive, no expiry timer stays
/// armed, and the output timer is disarmed.
pub proof fn lemma_off_quiescence(pre: Server, post: Server, msg: Msg, actions: Seq<Action>)
    requires
        pre.inv(),
        handle_spec(pre, post, msg, actions),
    ensures
        pre.state is Off && (msg is Input || msg is Expiration || msg is Output) ==> post == pre
            && actions.len() == 0,
        !(pre.state is Off) && post.state is Off ==> post.quiescent() && !post.output_timer,
{
    match msg {
        Msg::FeedExit { pos, .. } => {
            let feeds1 = pre.feeds@.update(pos as int, None);
            if pre.state is Offing && live_count(feeds1) == 0 {
            } else {
                assert(post.state == pre.state);
            }
        },
        _ => {},
    }
}

/// Shutdown completeness. Handling a message fires the deferred Off
/// reply exactly when it is the exit of the last live feed while
/// shutting down; the cleanup of that feed — reaping the child and
/// awaiting its output router — is requested before the signal.
pub proof fn lemma_shutdown_completeness(pre: Server, post: Server, msg: Msg, actions: Seq<Action>)
    requires
        pre.inv(),
        handle_spec(pre, post, msg, actions),
    ensures
        actions.contains(Action::SignalOffComplete) <==> (msg matches Msg::FeedExit { pos, .. }
            && pre.state is Offing && live_count(pre.feeds@.update(pos as int, None)) == 0),
        actions.contains(Action::SignalOffComplete) ==> (msg matches Msg::FeedExit { pos, .. }
            && actions[0] == (Action::CleanupFeed { pos })),
{
    match msg {
        Msg::On => {
            match pre.state {
                State::Off => {
                    assert(!actions.contains(Action::SignalOffComplete)) by {
                        if actions.contains(Action::SignalOffComplete) {
                            let k = choose|k: int|
                                0 <= k < actions.len() && actions[k] == Action::SignalOffComplete;
                        }
                    }
                },
                _ => {
                    assert(!actions.contains(Action::SignalOffComplete)) by {
                        if actions.contains(Action::SignalOffComplete) {
                            let k = choose|k: int|
                                0 <= k < actions.len() && actions[k] == Action::SignalOffComplete;
                        }
                    }
                },
            }
        },
        Msg::Off => {
            match pre.state {
                State::On => {
                    assert(!actions.contains(Action::SignalOffComplete)) by {
                        if actions.contains(Action::SignalOffComplete) {
                            let k = choose|k: int|
                                0 <= k < actions.len() && actions[k] == Action::SignalOffComplete;
                            lemma_stop_actions_are_stops(pre.feeds@);
                            assert(actions == stop_actions(pre.feeds@).push(
                                Action::DeferOffReply,
                            ));
                            if k < actions.len() - 1 {
                                assert(actions[k] == stop_actions(pre.feeds@)[k]);
                            }
                        }
                    }
                },
                _ => {
                    assert(!actions.contains(Action::SignalOffComplete)) by {
                        if actions.contains(Action::SignalOffComplete) {
                            let k = choose|k: int|
                                0 <= k < actions.len() && actions[k] == Action::SignalOffComplete;
                        }
                    }
                },
            }
        },
        Msg::FeedExit { pos, .. } => {
            let feeds1 = pre.feeds@.update(pos as int, None);
            let had_timer = pos < pre.expiration_timers@.len() && pre.expiration_timers@[pos as int];
            let timers1 = if had_timer {
                pre.expiration_timers@.update(pos as int, false)
            } else {
                pre.expiration_timers@
            };
            let cancels = cancel_expiry_actions(timers1);
            let base0: int = if had_timer {
                3
            } else {
                2
            };
            let base = base0 + cancels.len() + if pre.output_timer {
                1 as int
            } else {
                0 as int
            };
            if pre.state is Offing && live_count(feeds1) == 0 {
                assert(actions[base + 1] == Action::SignalOffComplete);
                assert(actions.contains(Action::SignalOffComplete));
            } else {
                assert(!actions.contains(Action::SignalOffComplete)) by {
                    if actions.contains(Action::SignalOffComplete) {
                        let k = choose|k: int|
                            0 <= k < actions.len() && actions[k] == Action::SignalOffComplete;
                    }
                }
            }
        },
        _ => {
            assert(!actions.contains(Action::SignalOffComplete)) by {
                if actions.contains(Action::SignalOffComplete) {
                    let k = choose|k: int|
                        0 <= k < actions.len() && actions[k] == Action::SignalOffComplete;
                    lemma_cancel_actions_are_cancels(pre.expiration_timers@);
                }
            }
        },
    }
}

} // verus!
