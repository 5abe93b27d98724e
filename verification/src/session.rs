//! What a trace has found out, as far as its exports read it.

use crate::addr::IpAddr;
use crate::config::Config;
use crate::text::copy_of;
use vstd::prelude::*;

verus! {

/// An address together with its text form.
#[derive(Debug, Clone)]
pub struct Address {
    pub ip: IpAddr,
    pub text: String,
}

/// An address by its value and its text.
pub struct AddressView {
    pub ip: IpAddr,
    pub text: Seq<char>,
}

impl View for Address {
    type V = AddressView;

    open spec fn view(&self) -> AddressView {
        AddressView { ip: self.ip, text: self.text@ }
    }
}

impl Address {
    /// A copy of an address.
    pub fn copy(&self) -> (r: Address)
        ensures
            r@ == self@,
    {
        Address { ip: self.ip, text: copy_of(self.text.as_str()) }
    }
}

/// Addresses by their values.
pub open spec fn address_views(v: Seq<Address>) -> Seq<AddressView> {
    Seq::new(v.len(), |i: int| v[i]@)
}

/// Round-trip figures of a responder as text, in the unit and precision of
/// the output at hand.
#[derive(Debug, Clone)]
pub struct Figures {
    /// The latest round trip; unknown in sessions read from a file.
    pub last: Option<String>,
    pub avg: String,
    pub min: String,
    pub max: String,
    pub stddev: String,
    pub jitter: String,
    pub jitter_avg: String,
    pub jitter_max: String,
}

/// A router or host that answered at a hop.
#[derive(Debug, Clone)]
pub struct Responder {
    pub address: Address,
    pub hostname: Option<String>,
    pub received: u64,
    pub figures: Figures,
}

/// One hop of a path.
#[derive(Debug, Clone)]
pub struct Hop {
    pub ttl: u8,
    pub sent: u64,
    pub received: u64,
    pub timeouts: u64,
    /// Loss as text, in the unit and precision of the output at hand.
    pub loss: String,
    /// Everyone who answered here.
    pub responders: Vec<Responder>,
    /// Who answers most often.
    pub primary: Option<Address>,
}

/// The first responder with an address.
pub open spec fn responder_at(responders: Seq<Responder>, ip: IpAddr) -> Option<Responder>
    decreases responders.len(),
{
    if responders.len() == 0 {
        None
    } else if responders[0].address.ip == ip {
        Some(responders[0])
    } else {
        responder_at(responders.skip(1), ip)
    }
}

impl Hop {
    /// The responder that is shown for this hop.
    pub open spec fn shown(self) -> Option<Responder> {
        match self.primary {
            Some(primary) => responder_at(self.responders@, primary.ip),
            None => None,
        }
    }

    /// The responder that is shown for this hop.
    pub fn primary_stats(&self) -> (r: Option<&Responder>)
        ensures
            match self.shown() {
                Some(stats) => r is Some && *(r->0) == stats,
                None => r is None,
            },
    {
        match &self.primary {
            Some(primary) => {
                let ip: IpAddr = primary.ip;
                let mut i: usize = 0;
                assert(self.responders@.skip(0) =~= self.responders@);
                while i < self.responders.len()
                    invariant
                        i <= self.responders.len(),
                        responder_at(self.responders@.skip(i as int), ip) == responder_at(
                            self.responders@,
                            ip,
                        ),
                        self.shown() == responder_at(self.responders@, ip),
                    decreases self.responders.len() - i,
                {
                    assert(self.responders@.skip(i as int).skip(1) =~= self.responders@.skip(
                        i + 1,
                    ));
                    if self.responders[i].address.ip == ip {
                        return Some(&self.responders[i]);
                    }
                    i = i + 1;
                }
                None
            },
            None => None,
        }
    }
}

/// What is traced.
#[derive(Debug, Clone)]
pub struct Target {
    /// As the user wrote it.
    pub original: String,
    pub resolved: Address,
    /// The name to show: a host name if one is known.
    pub display: String,
    /// Whether the name to show is itself an address.
    pub display_is_address: bool,
    /// The host name that a reverse lookup gave.
    pub hostname: Option<String>,
}

/// The state of a trace.
#[derive(Debug, Clone)]
pub struct Session {
    pub target: Target,
    pub config: Config,
    /// Seconds since 1970.
    pub started_at: i64,
    /// Whether the target has answered.
    pub complete: bool,
    /// The distance of the target, once known.
    pub dest_ttl: Option<u8>,
    pub total_sent: u64,
    pub hops: Vec<Hop>,
}

impl Session {
    /// How far exports go: the target, or the configured limit.
    pub open spec fn last_ttl(self) -> u8 {
        match self.dest_ttl {
            Some(ttl) => ttl,
            None => self.config.max_ttl,
        }
    }

    /// Whether exports list a hop: it was probed and lies on the way.
    pub open spec fn lists(self, hop: Hop) -> bool {
        hop.sent != 0 && hop.ttl <= self.last_ttl()
    }

    /// Whether exports list a hop.
    pub fn is_listed(&self, hop: &Hop) -> (r: bool)
        ensures
            r == self.lists(*hop),
    {
        let last: u8 = match self.dest_ttl {
            Some(ttl) => ttl,
            None => self.config.max_ttl,
        };
        hop.sent != 0 && hop.ttl <= last
    }
}

/// The first session that traces an address.
pub open spec fn session_of(sessions: Seq<Session>, ip: IpAddr) -> Option<Session>
    decreases sessions.len(),
{
    if sessions.len() == 0 {
        None
    } else if sessions[0].target.resolved.ip == ip {
        Some(sessions[0])
    } else {
        session_of(sessions.skip(1), ip)
    }
}

/// Finds the session that traces an address.
pub fn find_session(sessions: &Vec<Session>, ip: IpAddr) -> (r: Option<&Session>)
    ensures
        match session_of(sessions@, ip) {
            Some(s) => r is Some && *(r->0) == s,
            None => r is None,
        },
{
    let mut i: usize = 0;
    assert(sessions@.skip(0) =~= sessions@);
    while i < sessions.len()
        invariant
            i <= sessions.len(),
            session_of(sessions@.skip(i as int), ip) == session_of(sessions@, ip),
        decreases sessions.len() - i,
    {
        assert(sessions@.skip(i as int).skip(1) =~= sessions@.skip(i + 1));
        if sessions[i].target.resolved.ip == ip {
            return Some(&sessions[i]);
        }
        i = i + 1;
    }
    None
}

/// A hop is listed if it was probed and is not behind the target; before the
/// distance of the target is known, if it is within the largest TTL.
pub proof fn law_listed_up_to_the_target(session: &Session, hop: &Hop, r: bool)
    requires
        call_ensures(Session::is_listed, (session, hop), r),
    ensures
        hop.sent == 0 ==> !r,
        session.dest_ttl matches Some(ttl) ==> (r <==> hop.sent > 0 && hop.ttl <= ttl),
        session.dest_ttl is None ==> (r <==> hop.sent > 0 && hop.ttl <= session.config.max_ttl),
{
}

/// What is shown of a hop is its own responder with the address of the
/// primary one.
pub proof fn law_shown_is_primary(hop: &Hop, r: Option<&Responder>)
    requires
        call_ensures(Hop::primary_stats, (hop,), r),
    ensures
        hop.primary is None ==> r is None,
        r matches Some(stats) ==> (hop.primary matches Some(p) && p.ip == stats.address.ip)
            && hop.responders@.contains(*stats),
        r is None ==> (hop.primary matches Some(p) ==> forall|i: int|
            0 <= i < hop.responders@.len() ==> (#[trigger] hop.responders@[i]).address.ip != p.ip),
{
    if let Some(p) = hop.primary {
        lemma_responder_at(hop.responders@, p.ip);
    }
}

/// The responder with an address is one of the responders, if there is one.
proof fn lemma_responder_at(responders: Seq<Responder>, ip: IpAddr)
    ensures
        responder_at(responders, ip) matches Some(r) ==> responders.contains(r) && r.address.ip
            == ip,
        responder_at(responders, ip) is None ==> forall|i: int|
            0 <= i < responders.len() ==> (#[trigger] responders[i]).address.ip != ip,
    decreases responders.len(),
{
    if responders.len() > 0 && responders[0].address.ip != ip {
        let rest = responders.skip(1);
        lemma_responder_at(rest, ip);
        if let Some(r) = responder_at(rest, ip) {
            let i = choose|i: int| 0 <= i < rest.len() && rest[i] == r;
            assert(responders[i + 1] == r);
        } else {
            assert forall|i: int| 0 <= i < responders.len() implies (
            #[trigger] responders[i]).address.ip != ip by {
                if i > 0 {
                    assert(rest[i - 1] == responders[i]);
                }
            }
        }
    } else if responders.len() > 0 {
        assert(responders[0].address.ip == ip);
        assert(responders.contains(responders[0]));
    }
}

/// A session is found by the address of its target.
pub proof fn law_session_found_by_address(sessions: &Vec<Session>, ip: IpAddr, r: Option<&Session>)
    requires
        call_ensures(find_session, (sessions, ip), r),
    ensures
        r matches Some(s) ==> s.target.resolved.ip == ip && sessions@.contains(*s),
        r is None ==> forall|i: int|
            0 <= i < sessions@.len() ==> (#[trigger] sessions@[i]).target.resolved.ip != ip,
{
    lemma_session_of(sessions@, ip);
}

/// The session of an address is one of the sessions, if there is one.
proof fn lemma_session_of(sessions: Seq<Session>, ip: IpAddr)
    ensures
        session_of(sessions, ip) matches Some(s) ==> sessions.contains(s) && s.target.resolved.ip
            == ip,
        session_of(sessions, ip) is None ==> forall|i: int|
            0 <= i < sessions.len() ==> (#[trigger] sessions[i]).target.resolved.ip != ip,
    decreases sessions.len(),
{
    if sessions.len() > 0 && sessions[0].target.resolved.ip != ip {
        let rest = sessions.skip(1);
        lemma_session_of(rest, ip);
        if let Some(s) = session_of(rest, ip) {
            let i = choose|i: int| 0 <= i < rest.len() && rest[i] == s;
            assert(sessions[i + 1] == s);
        } else {
            assert forall|i: int| 0 <= i < sessions.len() implies (
            #[trigger] sessions[i]).target.resolved.ip != ip by {
                if i > 0 {
                    assert(rest[i - 1] == sessions[i]);
                }
            }
        }
    } else if sessions.len() > 0 {
        assert(sessions.contains(sessions[0]));
    }
}

} // verus!
