//! The engine: the reality boundary of the simulated world.
//!
//! A frame comes in; its semantic boundary is read (the target of an ARP
//! request, the destination of an IPv4 packet); a miss in the world's facts
//! is resolved by the materializer; the frame is then handed to the host at
//! that address. Running each host's network stack is the caller's part: the
//! engine decides which host gets the frame and makes sure it exists.

use std::collections::HashMap;

use vstd::prelude::*;

use crate::facts::{HostFacts, HostView};
use crate::materialize::Materializer;
use crate::wire::{frame_destination, frame_target};
use crate::world::{admit_host, host_conflict_message, hosts_view, in_subnet_spec, WorldState, WorldView};

verus! {

broadcast use vstd::std_specs::hash::group_hash_axioms;

/// The world, the materializer consulted on a miss, and the hosts that have
/// been started, by address, with the facts each was started from.
pub struct Engine<M: Materializer> {
    pub world: WorldState,
    pub materializer: M,
    pub hosts: HashMap<u32, HostFacts>,
}

/// What to do with a frame.
pub enum FrameAction {
    /// Nothing: the frame is malformed, not ARP or IPv4, or addressed outside
    /// the subnet.
    Drop,
    /// Hand the frame to the running host at this address.
    Deliver(u32),
    /// The frame is for this address, but no host could be made to exist
    /// there; the reason says why.
    Unavailable { ip: u32, reason: String },
}

/// The facts of the started hosts.
pub open spec fn started<M: Materializer>(e: Engine<M>) -> Map<u32, HostView> {
    hosts_view(e.hosts@)
}

/// What [`Engine::ensure_host`] leaves behind, for a materializer that may
/// answer anything: a host already started stays as it is; a host known to
/// the world is started from the world's facts; otherwise, on success, the
/// facts the host was started from are admitted to the world; on failure
/// nothing changes.
pub open spec fn ensure_host_post<M: Materializer>(pre: Engine<M>, post: Engine<M>, ip: u32, ok: bool) -> bool {
    &&& post.materializer == pre.materializer
    &&& if started(pre).contains_key(ip) {
        &&& ok
        &&& post.world@ == pre.world@
        &&& started(post) == started(pre)
    } else if pre.world@.hosts.contains_key(ip) {
        &&& ok
        &&& post.world@ == pre.world@
        &&& started(post) == started(pre).insert(ip, pre.world@.hosts[ip])
    } else if ok {
        &&& started(post).contains_key(ip)
        &&& started(post) == started(pre).insert(ip, started(post)[ip])
        &&& admit_host(pre.world@.hosts, started(post)[ip]) == Some(post.world@.hosts)
        &&& post.world@ == (WorldView { hosts: post.world@.hosts, ..pre.world@ })
    } else {
        &&& post.world@ == pre.world@
        &&& started(post) == started(pre)
    }
}

/// The result a frame action stands for: delivery is success, an
/// unavailable host is the failure with its reason.
pub open spec fn action_result(a: FrameAction) -> Result<(), String> {
    match a {
        FrameAction::Unavailable { reason, .. } => Err(reason),
        _ => Ok(()),
    }
}

/// What [`Engine::ensure_host`] leaves behind: [`ensure_host_post`], and,
/// when the address neither runs a host nor is known to the world, the
/// outcome of adopting an answer the materializer may give for that address
/// in the world as it was.
pub open spec fn ensure_host_spec<M: Materializer>(
    pre: Engine<M>,
    post: Engine<M>,
    ip: u32,
    r: Result<(), String>,
) -> bool {
    &&& ensure_host_post(pre, post, ip, r is Ok)
    &&& (!started(pre).contains_key(ip) && !pre.world@.hosts.contains_key(ip)) ==> exists|
        c: Result<HostFacts, String>,
    | #[trigger] pre.materializer.host_answer(ip, pre.world@, c) && adopt_host_post(
        pre,
        post,
        ip,
        c,
        r,
    )
}

/// What handing a frame for `ip` leaves behind: nothing changes and the
/// frame is dropped when `ip` lies outside the subnet; otherwise a host is
/// made sure of at `ip` and the frame goes to it, or the reason it cannot.
pub open spec fn deliver_spec<M: Materializer>(
    pre: Engine<M>,
    post: Engine<M>,
    ip: u32,
    action: FrameAction,
) -> bool {
    if !in_subnet_spec(pre.world.net, pre.world.prefix, ip) {
        action is Drop && post == pre
    } else {
        &&& action matches FrameAction::Deliver(d) ==> d == ip
        &&& action matches FrameAction::Unavailable { ip: d, .. } ==> d == ip
        &&& !(action is Drop)
        &&& ensure_host_spec(pre, post, ip, action_result(action))
    }
}

/// What [`Engine::handle_frame`] leaves behind: a frame addressed to no IPv4
/// address is dropped and changes nothing; otherwise it is handed on as
/// [`deliver_spec`] says.
pub open spec fn handle_frame_spec<M: Materializer>(
    pre: Engine<M>,
    post: Engine<M>,
    frame: Seq<u8>,
    action: FrameAction,
) -> bool {
    match frame_target(frame) {
        None => action is Drop && post == pre,
        Some(ip) => deliver_spec(pre, post, ip, action),
    }
}

/// What [`Engine::adopt_host`] leaves behind for a given materializer answer.
pub open spec fn adopt_host_post<M: Materializer>(
    pre: Engine<M>,
    post: Engine<M>,
    ip: u32,
    candidate: Result<HostFacts, String>,
    r: Result<(), String>,
) -> bool {
    &&& post.materializer == pre.materializer
    &&& match candidate {
        Err(e) => r == Err::<(), String>(e) && post.world@ == pre.world@ && started(post) == started(
            pre,
        ),
        Ok(f) => match admit_host(pre.world@.hosts, f@) {
            None => {
                &&& r matches Err(e) && e@ == host_conflict_message(f.ip)
                &&& post.world@ == pre.world@
                &&& started(post) == started(pre)
            },
            Some(h) => {
                &&& r is Ok
                &&& post.world@ == (WorldView { hosts: h, ..pre.world@ })
                &&& started(post) == started(pre).insert(ip, f@)
            },
        },
    }
}

impl<M: Materializer> Engine<M> {
    /// An engine whose started hosts are the world's seed hosts (such as the
    /// gateway).
    pub fn new(world: WorldState, materializer: M) -> (e: Self)
        ensures
            e.world == world,
            e.materializer == materializer,
            started(e) == world@.hosts,
    {
        let hosts = world.hosts.clone();
        Engine { world, materializer, hosts }
    }

    /// Takes the materializer's answer for an address that has no host yet:
    /// an error is passed on; facts are admitted to the world, and on
    /// success a host is started at `ip` from them.
    pub fn adopt_host(&mut self, ip: u32, candidate: Result<HostFacts, String>) -> (r: Result<
        (),
        String,
    >)
        ensures
            adopt_host_post(*old(self), *final(self), ip, candidate, r),
    {
        match candidate {
            Err(e) => Err(e),
            Ok(f) => {
                let copy = f.clone();
                match self.world.materialize_host(copy) {
                    Err(e) => Err(e),
                    Ok(()) => {
                        let ghost fv = f@;
                        self.hosts.insert(ip, f);
                        proof {
                            assert(hosts_view(self.hosts@) =~= hosts_view(old(self).hosts@).insert(
                                ip,
                                fv,
                            ));
                        }
                        Ok(())
                    },
                }
            },
        }
    }

    /// Makes sure a host runs at `ip`, materializing one when the world has
    /// none. This is the only place where the materializer is consulted.
    pub fn ensure_host(&mut self, ip: u32) -> (r: Result<(), String>)
        ensures
            ensure_host_spec(*old(self), *final(self), ip, r),
    {
        if self.hosts.contains_key(&ip) {
            return Ok(());
        }
        let facts = match self.world.hosts.get(&ip) {
            Some(f) => f.clone(),
            None => {
                let candidate = self.materializer.materialize_host(ip, &self.world);
                let ghost pre = *self;
                let ghost c = candidate;
                let r = self.adopt_host(ip, candidate);
                proof {
                    assert(adopt_host_post(pre, *self, ip, c, r));
                    assert(pre.materializer.host_answer(ip, pre.world@, c));
                    match c {
                        Ok(f) => {
                            if r is Ok {
                                assert(started(*self)[ip] == f@);
                            }
                        },
                        Err(_) => {},
                    }
                }
                return r;
            },
        };
        let ghost fv = facts@;
        self.hosts.insert(ip, facts);
        proof {
            assert(hosts_view(self.hosts@) =~= hosts_view(old(self).hosts@).insert(ip, fv));
        }
        Ok(())
    }

    /// Reads where a frame is going and makes sure a host is there to take
    /// it.
    pub fn handle_frame(&mut self, frame: &[u8]) -> (action: FrameAction)
        requires
            frame_target(frame@) is Some ==> old(self).world.prefix <= 32,
        ensures
            handle_frame_spec(*old(self), *final(self), frame@, action),
    {
        match frame_destination(frame) {
            None => FrameAction::Drop,
            Some(ip) => self.deliver(ip),
        }
    }

    fn deliver(&mut self, ip: u32) -> (action: FrameAction)
        requires
            old(self).world.prefix <= 32,
        ensures
            deliver_spec(*old(self), *final(self), ip, action),
    {
        if !self.world.in_subnet(ip) {
            return FrameAction::Drop;
        }
        match self.ensure_host(ip) {
            Ok(()) => FrameAction::Deliver(ip),
            Err(reason) => FrameAction::Unavailable { ip, reason },
        }
    }
}

} // verus!
