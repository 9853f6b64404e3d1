//! Workers in the tunnel: which address a new one gets, and how the list of them changes.

use vstd::prelude::*;

use crate::config::{WireGuardConfig, WireGuardConfigView};
use crate::records;
use crate::records::{PeerChange, PeerChangeView, PeerRow, PeerRowView};
use crate::text;
use crate::text::{head, number, parse_byte, same, split};
use crate::work;
use crate::work::{Cmd, Query, QueryView, Reply, ReplyView, Step, StepView};

verus! {

/// Those of `list` that write a number of one byte, as numbers.
pub open spec fn byte_parts(list: Seq<Seq<char>>) -> Seq<u8>
    decreases list.len(),
{
    if list.len() == 0 {
        Seq::empty()
    } else {
        match text::byte_value(list.last()) {
            Some(b) => byte_parts(list.drop_last()).push(b),
            None => byte_parts(list.drop_last()),
        }
    }
}

/// The numbers in the address before the slash of a pool.
pub open spec fn pool_parts(pool: Seq<char>) -> Seq<u8> {
    byte_parts(text::pieces(text::before(pool, "/"@), "."@))
}

/// The address of the host `h` in the network that the first three numbers of `p` name.
pub open spec fn address(p: Seq<u8>, h: int) -> Seq<char> {
    text::nat_text(p[0] as nat) + "."@ + text::nat_text(p[1] as nat) + "."@ + text::nat_text(
        p[2] as nat,
    ) + "."@ + text::nat_text(h as nat)
}

/// Whether a peer has the address `ip`.
pub open spec fn taken(peers: Seq<PeerRowView>, ip: Seq<char>) -> bool {
    exists|i: int| 0 <= i < peers.len() && (#[trigger] peers[i]).assigned_ip == ip
}

/// The address of the first host from `h` to 254 that no peer has.
pub open spec fn first_free(p: Seq<u8>, peers: Seq<PeerRowView>, h: int) -> Option<Seq<char>>
    decreases 255 - h,
{
    if h > 254 {
        None
    } else if !taken(peers, address(p, h)) {
        Some(address(p, h))
    } else {
        first_free(p, peers, h + 1)
    }
}

/// The address that the next peer gets.
pub open spec fn next_ip(pool: Seq<char>, peers: Seq<PeerRowView>) -> Option<Seq<char>> {
    if pool_parts(pool).len() == 4 {
        first_free(pool_parts(pool), peers, 2)
    } else {
        None
    }
}

/// Whether a peer has the address `ip`.
fn is_taken(peers: &Vec<PeerRow>, ip: &str) -> (r: bool)
    ensures
        r == taken(records::views(peers@), ip@),
{
    for i in 0..peers.len()
        invariant
            forall|j: int| 0 <= j < i ==> (#[trigger] peers@[j]).assigned_ip@ != ip@,
    {
        if same(peers[i].assigned_ip.as_str(), ip) {
            assert(records::views(peers@)[i as int].assigned_ip == ip@);
            return true;
        }
    }
    assert forall|j: int| 0 <= j < peers@.len() implies (#[trigger] records::views(peers@)[j]).assigned_ip
        != ip@ by {
        assert(peers@[j].assigned_ip@ != ip@);
    }
    false
}

/// The numbers in the address before the slash of a pool.
fn parse_pool(pool: &str) -> (r: Vec<u8>)
    ensures
        r@ == pool_parts(pool@),
{
    proof {
        reveal_strlit(".");
    }
    let list = split(head(pool, "/"), ".");
    let ghost all = list.deep_view();
    let mut out: Vec<u8> = Vec::new();
    for i in 0..list.len()
        invariant
            all == list.deep_view(),
            out@ == byte_parts(all.take(i as int)),
    {
        assert(all.take(i + 1).drop_last() =~= all.take(i as int));
        match parse_byte(list[i]) {
            Some(b) => {
                out.push(b);
            },
            None => {},
        }
    }
    assert(all.take(list@.len() as int) =~= all);
    out
}

/// The address that the next peer gets: the lowest from `.2` to `.254` of the pool's network that
/// no peer has.
pub fn wg_next_ip(pool: &str, peers: &Vec<PeerRow>) -> (r: Option<String>)
    ensures
        records::opt_text(r) == next_ip(pool@, records::views(peers@)),
{
    let parts = parse_pool(pool);
    if parts.len() != 4 {
        return None;
    }
    let mut h: u8 = 2;
    while h <= 254
        invariant
            2 <= h <= 255,
            parts@.len() == 4,
            next_ip(pool@, records::views(peers@)) == first_free(
                parts@,
                records::views(peers@),
                h as int,
            ),
        decreases 255 - h,
    {
        let ip = number(parts[0] as u64).concat(".").concat(number(parts[1] as u64).as_str()).concat(
            ".",
        ).concat(number(parts[2] as u64).as_str()).concat(".").concat(number(h as u64).as_str());
        assert(ip@ == address(parts@, h as int));
        if !is_taken(peers, ip.as_str()) {
            return Some(ip);
        }
        h += 1;
    }
    None
}

/// The position of the peer with the key `key`.
pub open spec fn key_at(peers: Seq<PeerRowView>, key: Seq<char>) -> Option<int>
    decreases peers.len(),
{
    if peers.len() == 0 {
        None
    } else if key_at(peers.drop_last(), key) is Some {
        key_at(peers.drop_last(), key)
    } else if peers.last().public_key == key {
        Some(peers.len() - 1)
    } else {
        None
    }
}

/// Whether a peer other than the one at position `but` has the name `name`.
pub open spec fn named_otherwise(peers: Seq<PeerRowView>, name: Seq<char>, but: Option<int>) -> bool {
    exists|i: int|
        0 <= i < peers.len() && Some(i) != but && (#[trigger] peers[i]).worker_name == name
}

/// What the registration of `name` with `key`, who was given `ip`, changes in the list: a key that
/// is known keeps its address and gets the name; no two peers have one name.
pub open spec fn peer_change(
    peers: Seq<PeerRowView>,
    name: Seq<char>,
    key: Seq<char>,
    ip: Seq<char>,
) -> PeerChangeView {
    let known = key_at(peers, key);
    if named_otherwise(peers, name, known) {
        PeerChangeView::NameTaken
    } else {
        match known {
            Some(k) => PeerChangeView::Rename { id: peers[k].id, worker_name: name },
            None => PeerChangeView::Insert { worker_name: name, public_key: key, assigned_ip: ip },
        }
    }
}

/// The position of the peer with the key `key`.
fn find_key(peers: &Vec<PeerRow>, key: &str) -> (r: Option<usize>)
    ensures
        r matches Some(k) ==> k < peers@.len() && key_at(records::views(peers@), key@) == Some(
            k as int,
        ),
        r is None ==> key_at(records::views(peers@), key@) is None,
{
    let ghost all = records::views(peers@);
    let mut found: Option<usize> = None;
    for i in 0..peers.len()
        invariant
            all == records::views(peers@),
            found matches Some(k) ==> k < i && key_at(all.take(i as int), key@) == Some(k as int),
            found is None ==> key_at(all.take(i as int), key@) is None,
    {
        assert(all.take(i + 1).drop_last() =~= all.take(i as int));
        if found.is_none() && same(peers[i].public_key.as_str(), key) {
            found = Some(i);
        }
    }
    assert(all.take(peers@.len() as int) =~= all);
    found
}

/// Whether a peer other than the one at position `but` has the name `name`.
fn is_named_otherwise(peers: &Vec<PeerRow>, name: &str, but: Option<usize>) -> (r: bool)
    ensures
        r == named_otherwise(
            records::views(peers@),
            name@,
            match but {
                Some(k) => Some(k as int),
                None => None,
            },
        ),
{
    let ghost all = records::views(peers@);
    let ghost skip = match but {
        Some(k) => Some(k as int),
        None => None,
    };
    for i in 0..peers.len()
        invariant
            all == records::views(peers@),
            skip == (match but {
                Some(k) => Some(k as int),
                None => None,
            }),
            forall|j: int| 0 <= j < i && Some(j) != skip ==> (#[trigger] all[j]).worker_name != name@,
    {
        let other = match but {
            Some(k) => k != i,
            None => true,
        };
        if other && same(peers[i].worker_name.as_str(), name) {
            assert(all[i as int].worker_name == name@);
            return true;
        }
    }
    false
}

/// What the registration of `name` with `key`, who was given `ip`, changes in the list.
pub fn register_peer(peers: &Vec<PeerRow>, name: &str, key: &str, ip: &str) -> (r: PeerChange)
    ensures
        r@ == peer_change(records::views(peers@), name@, key@, ip@),
{
    let known = find_key(peers, key);
    if is_named_otherwise(peers, name, known) {
        PeerChange::NameTaken
    } else {
        match known {
            Some(k) => PeerChange::Rename { id: peers[k].id, worker_name: name.to_string() },
            None => PeerChange::Insert {
                worker_name: name.to_string(),
                public_key: key.to_string(),
                assigned_ip: ip.to_string(),
            },
        }
    }
}

/// The stages of a registration.
#[derive(Debug, PartialEq, Eq)]
pub enum RegisterStage {
    Start,
    /// The peers were asked for.
    Listing,
    /// The peer is being added to the interface.
    Adding { ip: String, change: PeerChange },
    /// The time was asked for.
    Timing { ip: String, change: PeerChange },
    /// The change is being stored.
    Saving { ip: String },
    /// The address that was given, or why none was.
    Done(Result<String, String>),
}

pub enum RegisterStageView {
    Start,
    Listing,
    Adding { ip: Seq<char>, change: PeerChangeView },
    Timing { ip: Seq<char>, change: PeerChangeView },
    Saving { ip: Seq<char> },
    Done(Result<Seq<char>, Seq<char>>),
}

impl View for RegisterStage {
    type V = RegisterStageView;

    open spec fn view(&self) -> RegisterStageView {
        match self {
            RegisterStage::Start => RegisterStageView::Start,
            RegisterStage::Listing => RegisterStageView::Listing,
            RegisterStage::Adding { ip, change } => RegisterStageView::Adding {
                ip: ip@,
                change: change@,
            },
            RegisterStage::Timing { ip, change } => RegisterStageView::Timing {
                ip: ip@,
                change: change@,
            },
            RegisterStage::Saving { ip } => RegisterStageView::Saving { ip: ip@ },
            RegisterStage::Done(r) => RegisterStageView::Done(records::result_text(*r)),
        }
    }
}

/// The command that lets the peer `key` use the address `ip` on the interface `iface`.
pub open spec fn add_peer_command(iface: Seq<char>, key: Seq<char>, ip: Seq<char>) -> Seq<Seq<char>> {
    work::command("wg"@).push("set"@).push(iface).push("peer"@).push(key).push("allowed-ips"@).push(
        ip + "/32"@,
    )
}

/// The command that lets the peer `key` use the address `ip` on the interface `iface`.
pub fn add_peer_cmd(iface: &str, key: &str, ip: &str) -> (r: Cmd)
    ensures
        r@ == add_peer_command(iface@, key@, ip@),
{
    Cmd::new("wg").arg("set").arg(iface).arg("peer").arg(key).arg("allowed-ips").arg(
        ip.to_string().concat("/32").as_str(),
    )
}

/// A registration that ends in an error.
pub open spec fn refused(why: Seq<char>) -> (RegisterStageView, StepView) {
    (RegisterStageView::Done(Err(why)), StepView::stop())
}

/// How the registration of the worker `name` with the key `key` goes on.
pub open spec fn register_step(
    wg: WireGuardConfigView,
    name: Seq<char>,
    key: Seq<char>,
    stage: RegisterStageView,
    reply: ReplyView,
) -> (RegisterStageView, StepView) {
    match (stage, reply) {
        (RegisterStageView::Start, _) => if !wg.enabled {
            refused("WireGuard is not enabled on this orchestrator"@)
        } else {
            (RegisterStageView::Listing, StepView::stop().then_ask(QueryView::Peers))
        },
        (RegisterStageView::Listing, ReplyView::Peers(peers)) => match next_ip(
            wg.worker_ip_pool,
            peers,
        ) {
            None => refused("IP pool exhausted"@),
            Some(ip) => (
                RegisterStageView::Adding { ip, change: peer_change(peers, name, key, ip) },
                StepView::stop().then_ask(
                    QueryView::Run(add_peer_command(wg.interface, key, ip)),
                ),
            ),
        },
        (RegisterStageView::Adding { ip, change }, ReplyView::Status(s)) => if s != Some(true) {
            refused("wg set peer failed \u{2014} is wireguard-tools installed?"@)
        } else if change == PeerChangeView::NameTaken {
            refused("UNIQUE constraint failed: wg_peers.worker_name"@)
        } else {
            (
                RegisterStageView::Timing { ip, change },
                StepView::stop().then_ask(QueryView::Clock),
            )
        },
        (RegisterStageView::Timing { ip, change }, ReplyView::Time(t)) => (
            RegisterStageView::Saving { ip },
            StepView::stop().then_ask(QueryView::SavePeer(change, t)),
        ),
        (RegisterStageView::Saving { ip }, ReplyView::Written(r)) => match r {
            Ok(_) => (RegisterStageView::Done(Ok(ip)), StepView::stop()),
            Err(e) => refused(e),
        },
        (s, _) => (s, StepView::stop()),
    }
}

/// How the registration of the worker `name` with the key `key` goes on: the next free address is
/// chosen, the peer is added to the interface, and the change is stored.
pub fn wg_register_worker(
    wg: &WireGuardConfig,
    name: &str,
    key: &str,
    stage: RegisterStage,
    reply: Reply,
) -> (r: (RegisterStage, Step))
    ensures
        (r.0@, r.1@) == register_step(wg@, name@, key@, stage@, reply@),
{
    match (stage, reply) {
        (RegisterStage::Start, _) => {
            if !wg.enabled {
                (
                    RegisterStage::Done(
                        Err("WireGuard is not enabled on this orchestrator".to_string()),
                    ),
                    Step::stop(),
                )
            } else {
                (RegisterStage::Listing, Step::stop().then_ask(Query::Peers))
            }
        },
        (RegisterStage::Listing, Reply::Peers(peers)) => {
            match wg_next_ip(wg.worker_ip_pool.as_str(), &peers) {
                None => (
                    RegisterStage::Done(Err("IP pool exhausted".to_string())),
                    Step::stop(),
                ),
                Some(ip) => {
                    let change = register_peer(&peers, name, key, ip.as_str());
                    let cmd = add_peer_cmd(wg.interface.as_str(), key, ip.as_str());
                    (RegisterStage::Adding { ip, change }, Step::stop().then_ask(Query::Run(cmd)))
                },
            }
        },
        (RegisterStage::Adding { ip, change }, Reply::Status(s)) => {
            let ok = match s {
                Some(b) => b,
                None => false,
            };
            if !ok {
                (
                    RegisterStage::Done(
                        Err("wg set peer failed \u{2014} is wireguard-tools installed?".to_string()),
                    ),
                    Step::stop(),
                )
            } else {
                match change {
                    PeerChange::NameTaken => (
                        RegisterStage::Done(
                            Err("UNIQUE constraint failed: wg_peers.worker_name".to_string()),
                        ),
                        Step::stop(),
                    ),
                    change => (
                        RegisterStage::Timing { ip, change },
                        Step::stop().then_ask(Query::Clock),
                    ),
                }
            }
        },
        (RegisterStage::Timing { ip, change }, Reply::Time(t)) => (
            RegisterStage::Saving { ip },
            Step::stop().then_ask(Query::SavePeer(change, t)),
        ),
        (RegisterStage::Saving { ip }, Reply::Written(w)) => match w {
            Ok(_) => (RegisterStage::Done(Ok(ip)), Step::stop()),
            Err(e) => (RegisterStage::Done(Err(e)), Step::stop()),
        },
        (s, _) => (s, Step::stop()),
    }
}

/// What the next address is: in the pool's network, from `.2` to `.254`, free, and the lowest such.
/// There is none only where the pool is no address, or every one of these is taken.
pub proof fn law_next_ip(pool: Seq<char>, peers: Seq<PeerRowView>)
    ensures
        next_ip(pool, peers) matches Some(ip) ==> !taken(peers, ip) && pool_parts(pool).len() == 4
            && exists|h: int|
            2 <= h <= 254 && ip == #[trigger] address(pool_parts(pool), h) && (forall|g: int|
                2 <= g < h ==> taken(peers, #[trigger] address(pool_parts(pool), g))),
        next_ip(pool, peers) is None ==> pool_parts(pool).len() != 4 || (forall|h: int|
            2 <= h <= 254 ==> taken(peers, #[trigger] address(pool_parts(pool), h))),
{
    if pool_parts(pool).len() == 4 {
        lemma_first_free(pool_parts(pool), peers, 2);
    }
}

proof fn lemma_first_free(p: Seq<u8>, peers: Seq<PeerRowView>, from: int)
    requires
        2 <= from,
    ensures
        first_free(p, peers, from) matches Some(ip) ==> !taken(peers, ip) && exists|h: int|
            from <= h <= 254 && ip == #[trigger] address(p, h) && (forall|g: int|
                from <= g < h ==> taken(peers, #[trigger] address(p, g))),
        first_free(p, peers, from) is None ==> (forall|h: int|
            from <= h <= 254 ==> taken(peers, #[trigger] address(p, h))),
    decreases 255 - from,
{
    if from <= 254 {
        if taken(peers, address(p, from)) {
            lemma_first_free(p, peers, from + 1);
            match first_free(p, peers, from) {
                Some(ip) => {
                    let h = choose|h: int|
                        from + 1 <= h <= 254 && ip == #[trigger] address(p, h) && (forall|g: int|
                            from + 1 <= g < h ==> taken(peers, #[trigger] address(p, g)));
                    assert forall|g: int| from <= g < h implies taken(peers, #[trigger] address(p, g)) by {}
                    assert(ip == address(p, h));
                },
                None => {
                    assert forall|h: int| from <= h <= 254 implies taken(
                        peers,
                        #[trigger] address(p, h),
                    ) by {}
                },
            }
        } else {
            assert(first_free(p, peers, from) == Some(address(p, from)));
        }
    }
}

proof fn lemma_address(p: Seq<u8>, a: int, b: int)
    requires
        0 <= a,
        0 <= b,
        address(p, a) == address(p, b),
    ensures
        a == b,
{
    let front = text::nat_text(p[0] as nat) + "."@ + text::nat_text(p[1] as nat) + "."@
        + text::nat_text(p[2] as nat) + "."@;
    let x = text::nat_text(a as nat);
    let y = text::nat_text(b as nat);
    assert(address(p, a).skip(front.len() as int) =~= x);
    assert(address(p, b).skip(front.len() as int) =~= y);
    text::lemma_nat_text(a as nat);
    text::lemma_nat_text(b as nat);
}

/// A pool is exhausted by no fewer than 253 peers.
pub proof fn law_pool_capacity(pool: Seq<char>, peers: Seq<PeerRowView>)
    requires
        pool_parts(pool).len() == 4,
        peers.len() < 253,
    ensures
        next_ip(pool, peers) is Some,
{
    if next_ip(pool, peers) is None {
        let p = pool_parts(pool);
        law_next_ip(pool, peers);
        let f = |h: int|
            choose|i: int| 0 <= i < peers.len() && (#[trigger] peers[i]).assigned_ip == address(p, h);
        let hosts = vstd::set_lib::set_int_range(2, 255);
        let rows = vstd::set_lib::set_int_range(0, peers.len() as int);
        vstd::set_lib::lemma_int_range(2, 255);
        vstd::set_lib::lemma_int_range(0, peers.len() as int);
        assert forall|h: int| hosts.contains(h) implies rows.contains(#[trigger] f(h)) && peers[f(
            h,
        )].assigned_ip == address(p, h) by {
            assert(taken(peers, address(p, h)));
        }
        assert forall|a: int, b: int|
            hosts.contains(a) && hosts.contains(b) && #[trigger] f(a) == #[trigger] f(b) implies a
            == b by {
            lemma_address(p, a, b);
        }
        vstd::set_lib::lemma_map_size(hosts, hosts.map(f), f);
        assert(hosts.map(f).subset_of(rows));
        vstd::set_lib::lemma_len_subset(hosts.map(f), rows);
        assert(false);
    }
}

/// Whether no two peers have the same number, name, key or address.
pub open spec fn distinct(peers: Seq<PeerRowView>) -> bool {
    forall|i: int, j: int|
        0 <= i < j < peers.len() ==> (#[trigger] peers[i]).id != (#[trigger] peers[j]).id
            && peers[i].worker_name != peers[j].worker_name && peers[i].public_key
            != peers[j].public_key && peers[i].assigned_ip != peers[j].assigned_ip
}

/// The list of peers after a change; a new peer gets the number `id`.
pub open spec fn applied(
    peers: Seq<PeerRowView>,
    change: PeerChangeView,
    id: i64,
    at: i64,
) -> Seq<PeerRowView> {
    match change {
        PeerChangeView::Insert { worker_name, public_key, assigned_ip } => peers.push(
            PeerRowView { id, worker_name, public_key, assigned_ip, added_at: at },
        ),
        PeerChangeView::Rename { id: n, worker_name } => Seq::new(
            peers.len(),
            |i: int|
                if peers[i].id == n {
                    PeerRowView { worker_name, ..peers[i] }
                } else {
                    peers[i]
                },
        ),
        PeerChangeView::NameTaken => peers,
    }
}

proof fn lemma_key_at(peers: Seq<PeerRowView>, key: Seq<char>)
    ensures
        key_at(peers, key) matches Some(k) ==> 0 <= k < peers.len() && peers[k].public_key == key,
        key_at(peers, key) is None ==> (forall|i: int|
            0 <= i < peers.len() ==> (#[trigger] peers[i]).public_key != key),
    decreases peers.len(),
{
    if peers.len() > 0 {
        lemma_key_at(peers.drop_last(), key);
        assert forall|i: int| key_at(peers, key) is None && 0 <= i < peers.len() implies (
        #[trigger] peers[i]).public_key != key by {
            if i < peers.len() - 1 {
                assert(peers[i] == peers.drop_last()[i]);
            }
        }
    }
}

/// A registration keeps numbers, names, keys and addresses apart.
pub proof fn law_registration_keeps_peers_apart(
    pool: Seq<char>,
    peers: Seq<PeerRowView>,
    name: Seq<char>,
    key: Seq<char>,
    ip: Seq<char>,
    id: i64,
    at: i64,
)
    requires
        distinct(peers),
        next_ip(pool, peers) == Some(ip),
        forall|i: int| 0 <= i < peers.len() ==> (#[trigger] peers[i]).id != id,
    ensures
        distinct(applied(peers, peer_change(peers, name, key, ip), id, at)),
{
    law_next_ip(pool, peers);
    lemma_key_at(peers, key);
    let known = key_at(peers, key);
    let change = peer_change(peers, name, key, ip);
    let after = applied(peers, change, id, at);
    assert forall|i: int, j: int| 0 <= i < j < after.len() implies (#[trigger] after[i]).id != (
    #[trigger] after[j]).id && after[i].worker_name != after[j].worker_name && after[i].public_key
        != after[j].public_key && after[i].assigned_ip != after[j].assigned_ip by {
        assert(0 <= i < peers.len());
        if j < peers.len() {
            assert(peers[i].id != peers[j].id);
        }
        match change {
            PeerChangeView::Insert { .. } => {
                assert(Some(i) != known && peers[i].worker_name != name);
            },
            PeerChangeView::Rename { id: n, .. } => {
                let k = known->0;
                if i != k {
                    assert(peers[i].worker_name != name);
                }
                if j != k {
                    assert(peers[j].worker_name != name);
                }
            },
            PeerChangeView::NameTaken => {},
        }
    }
}

/// A worker whose key is new, and whose name nobody has, is listed under the name, the key and the
/// address that it is given; a known key keeps its address, and is listed under the new name.
pub proof fn law_registration_lists_worker(
    peers: Seq<PeerRowView>,
    name: Seq<char>,
    key: Seq<char>,
    ip: Seq<char>,
    id: i64,
    at: i64,
)
    requires
        distinct(peers),
        peer_change(peers, name, key, ip) != PeerChangeView::NameTaken,
    ensures
        ({
            let after = applied(peers, peer_change(peers, name, key, ip), id, at);
            match key_at(peers, key) {
                None => after == peers.push(
                    PeerRowView {
                        id,
                        worker_name: name,
                        public_key: key,
                        assigned_ip: ip,
                        added_at: at,
                    },
                ),
                Some(k) => 0 <= k < peers.len() && after == peers.update(
                    k,
                    PeerRowView { worker_name: name, ..peers[k] },
                ),
            }
        }),
{
    lemma_key_at(peers, key);
    match key_at(peers, key) {
        None => {},
        Some(k) => {
            let after = applied(peers, peer_change(peers, name, key, ip), id, at);
            assert forall|i: int| 0 <= i < peers.len() implies after[i] == peers.update(
                k,
                PeerRowView { worker_name: name, ..peers[k] },
            )[i] by {
                if i < k {
                    assert(peers[i].id != peers[k].id);
                } else if k < i {
                    assert(peers[k].id != peers[i].id);
                }
            }
            assert(after =~= peers.update(k, PeerRowView { worker_name: name, ..peers[k] }));
        },
    }
}

/// While the tunnel is off no registration asks for anything, and each is refused.
pub proof fn law_no_registration_while_off(
    wg: WireGuardConfigView,
    name: Seq<char>,
    key: Seq<char>,
    reply: ReplyView,
)
    requires
        !wg.enabled,
    ensures
        register_step(wg, name, key, RegisterStageView::Start, reply) == (
            RegisterStageView::Done(Err("WireGuard is not enabled on this orchestrator"@)),
            StepView::stop(),
        ),
{
}

/// A change is stored only once the peer is on the interface: the query that stores it comes from
/// a stage that only a successful command leads to.
pub proof fn law_stored_after_added(
    wg: WireGuardConfigView,
    name: Seq<char>,
    key: Seq<char>,
    stage: RegisterStageView,
    reply: ReplyView,
)
    ensures
        register_step(wg, name, key, stage, reply).1.ask matches Some(QueryView::SavePeer(c, t))
            ==> stage is Timing,
        register_step(wg, name, key, stage, reply).0 is Timing && !(stage is Timing) ==> stage is Adding
            && reply == ReplyView::Status(Some(true)),
{
}

/// A registration that nothing stands in the way of: the command names the lowest free address, the
/// change of the list is stored, and that address is the answer.
pub proof fn law_registration_run(
    wg: WireGuardConfigView,
    name: Seq<char>,
    key: Seq<char>,
    peers: Seq<PeerRowView>,
    ip: Seq<char>,
    t: i64,
)
    requires
        wg.enabled,
        next_ip(wg.worker_ip_pool, peers) == Some(ip),
        peer_change(peers, name, key, ip) != PeerChangeView::NameTaken,
    ensures
        ({
            let a = register_step(wg, name, key, RegisterStageView::Start, ReplyView::Begin);
            let b = register_step(wg, name, key, a.0, ReplyView::Peers(peers));
            let c = register_step(wg, name, key, b.0, ReplyView::Status(Some(true)));
            let d = register_step(wg, name, key, c.0, ReplyView::Time(t));
            let e = register_step(wg, name, key, d.0, ReplyView::Written(Ok(())));
            &&& a.1.ask == Some(QueryView::Peers)
            &&& b.1.ask == Some(QueryView::Run(add_peer_command(wg.interface, key, ip)))
            &&& c.1.ask == Some(QueryView::Clock)
            &&& d.1.ask == Some(QueryView::SavePeer(peer_change(peers, name, key, ip), t))
            &&& e == (RegisterStageView::Done(Ok(ip)), StepView::stop())
        }),
{
}

/// How many answers a registration can still need.
pub open spec fn rank(s: RegisterStageView) -> nat {
    match s {
        RegisterStageView::Start => 5,
        RegisterStageView::Listing => 4,
        RegisterStageView::Adding { .. } => 3,
        RegisterStageView::Timing { .. } => 2,
        RegisterStageView::Saving { .. } => 1,
        RegisterStageView::Done(_) => 0,
    }
}

/// A registration comes to an end: each step leads nearer to it, and asks something unless it is
/// there.
pub proof fn law_registration_ends(
    wg: WireGuardConfigView,
    name: Seq<char>,
    key: Seq<char>,
    stage: RegisterStageView,
    reply: ReplyView,
    next: ReplyView,
)
    requires
        rank(register_step(wg, name, key, stage, reply).0) < rank(stage),
    ensures
        ({
            let x = register_step(wg, name, key, stage, reply);
            &&& x.0 is Done <==> x.1.ask is None
            &&& x.1.ask matches Some(q) ==> work::fits(q, next) ==> rank(
                register_step(wg, name, key, x.0, next).0,
            ) < rank(x.0)
        }),
{
}

proof fn lemma_dotted(a: nat, b: nat, c: nat, d: nat)
    ensures
        ({
            let s = text::nat_text(a) + "."@ + text::nat_text(b) + "."@ + text::nat_text(c) + "."@
                + text::nat_text(d);
            &&& text::lacks(s, '/')
            &&& text::pieces(s, "."@) == Seq::empty().push(text::nat_text(a)).push(
                text::nat_text(b),
            ).push(text::nat_text(c)).push(text::nat_text(d))
        }),
{
    reveal_strlit(".");
    let x = text::nat_text(a);
    let y = text::nat_text(b);
    let z = text::nat_text(c);
    let w = text::nat_text(d);
    text::law_digits('.');
    text::law_digits('/');
    text::lemma_number_lacks(a as int, '.');
    text::lemma_number_lacks(b as int, '.');
    text::lemma_number_lacks(c as int, '.');
    text::lemma_number_lacks(d as int, '.');
    text::lemma_number_lacks(a as int, '/');
    text::lemma_number_lacks(b as int, '/');
    text::lemma_number_lacks(c as int, '/');
    text::lemma_number_lacks(d as int, '/');
    let s = x + "."@ + y + "."@ + z + "."@ + w;
    assert(s =~= x + "."@ + (y + "."@ + (z + "."@ + w)));
    text::lemma_first_piece(x, "."@, y + "."@ + (z + "."@ + w));
    text::lemma_first_piece(y, "."@, z + "."@ + w);
    text::lemma_first_piece(z, "."@, w);
    text::lemma_one_piece(w, "."@);
    assert(text::pieces(s, "."@) =~= Seq::empty().push(x).push(y).push(z).push(w));
}

/// A pool is read as the four numbers of its address, whatever follows a slash.
pub proof fn law_pool(a: u8, b: u8, c: u8, d: u8, rest: Seq<char>)
    ensures
        ({
            let s = text::nat_text(a as nat) + "."@ + text::nat_text(b as nat) + "."@
                + text::nat_text(c as nat) + "."@ + text::nat_text(d as nat);
            &&& pool_parts(s) == seq![a, b, c, d]
            &&& pool_parts(s + "/"@ + rest) == seq![a, b, c, d]
        }),
{
    reveal_strlit("/");
    let s = text::nat_text(a as nat) + "."@ + text::nat_text(b as nat) + "."@ + text::nat_text(
        c as nat,
    ) + "."@ + text::nat_text(d as nat);
    lemma_dotted(a as nat, b as nat, c as nat, d as nat);
    text::lemma_first_separator(s, "/"@, rest);
    assert((s + "/"@ + rest).take(s.len() as int) =~= s);
    text::lemma_find_from(s, "/"@, 0);
    if text::find(s, "/"@) is Some {
        text::lemma_single(s, "/"@, text::find(s, "/"@)->0);
    }
    let list = text::pieces(s, "."@);
    text::law_numbers_are_read(a as nat, Seq::empty(), 0);
    text::law_numbers_are_read(b as nat, Seq::empty(), 0);
    text::law_numbers_are_read(c as nat, Seq::empty(), 0);
    text::law_numbers_are_read(d as nat, Seq::empty(), 0);
    let l3 = list.drop_last();
    let l2 = l3.drop_last();
    let l1 = l2.drop_last();
    let l0 = l1.drop_last();
    assert(l0.len() == 0);
    assert(byte_parts(l0) =~= Seq::<u8>::empty());
    assert(byte_parts(l1) =~= seq![a]);
    assert(byte_parts(l2) =~= seq![a, b]);
    assert(byte_parts(l3) =~= seq![a, b, c]);
    assert(byte_parts(list) =~= seq![a, b, c, d]);
}

/// The first worker of a pool gets the second address of it, after the server's; addresses are the
/// pool's first three numbers and a number of their own.
pub proof fn law_first_address(a: u8, b: u8, c: u8, d: u8, rest: Seq<char>, h: int)
    requires
        0 <= h,
    ensures
        next_ip(
            text::nat_text(a as nat) + "."@ + text::nat_text(b as nat) + "."@ + text::nat_text(
                c as nat,
            ) + "."@ + text::nat_text(d as nat) + "/"@ + rest,
            Seq::empty(),
        ) == Some(
            text::int_text(a as int) + "."@ + text::int_text(b as int) + "."@ + text::int_text(
                c as int,
            ) + "."@ + text::int_text(2),
        ),
        address(seq![a, b, c, d], h) == text::int_text(a as int) + "."@ + text::int_text(b as int)
            + "."@ + text::int_text(c as int) + "."@ + text::int_text(h),
{
    law_pool(a, b, c, d, rest);
}

/// What becomes of a registration: refused where a peer with another key has the name; a new name
/// for the peer that has the key; else a new peer, with the name, the key and the address.
pub proof fn law_what_registering_changes(
    peers: Seq<PeerRowView>,
    name: Seq<char>,
    key: Seq<char>,
    ip: Seq<char>,
    i: int,
)
    requires
        0 <= i < peers.len(),
    ensures
        ({
            let c = peer_change(peers, name, key, ip);
            &&& peers[i].worker_name == name && peers[i].public_key != key ==> c
                == PeerChangeView::NameTaken
            &&& peers[i].public_key == key && (forall|j: int|
                0 <= j < peers.len() && j != i ==> (#[trigger] peers[j]).public_key != key
                    && peers[j].worker_name != name) ==> c == (PeerChangeView::Rename {
                id: peers[i].id,
                worker_name: name,
            })
            &&& (forall|j: int|
                0 <= j < peers.len() ==> (#[trigger] peers[j]).public_key != key
                    && peers[j].worker_name != name) ==> c == (PeerChangeView::Insert {
                worker_name: name,
                public_key: key,
                assigned_ip: ip,
            })
        }),
{
    lemma_key_at(peers, key);
    if peers[i].worker_name == name && peers[i].public_key != key {
        assert(Some(i) != key_at(peers, key));
        assert(named_otherwise(peers, name, key_at(peers, key)));
    }
    if peers[i].public_key == key && (forall|j: int|
        0 <= j < peers.len() && j != i ==> (#[trigger] peers[j]).public_key != key
            && peers[j].worker_name != name) {
        assert(key_at(peers, key) == Some(i));
    }
}

/// The first peer that has a key is the one that is found by it.
pub proof fn law_found_by_key(peers: Seq<PeerRowView>, key: Seq<char>, j: int)
    ensures
        key_at(peers, key) matches Some(k) ==> 0 <= k < peers.len() && peers[k].public_key == key && (
        0 <= j < k ==> peers[j].public_key != key),
        key_at(peers, key) is None && 0 <= j < peers.len() ==> peers[j].public_key != key,
    decreases peers.len(),
{
    if peers.len() > 0 {
        law_found_by_key(peers.drop_last(), key, j);
        if 0 <= j < peers.len() - 1 {
            assert(peers.drop_last()[j] == peers[j]);
        }
    }
}

/// A peer is added to the interface under its key, for its own address alone.
pub proof fn law_adding_a_peer(iface: Seq<char>, key: Seq<char>, ip: Seq<char>)
    ensures
        add_peer_command(iface, key, ip) == seq![
            "wg"@,
            "set"@,
            iface,
            "peer"@,
            key,
            "allowed-ips"@,
            ip + "/32"@,
        ],
{
    assert(add_peer_command(iface, key, ip) =~= seq![
        "wg"@,
        "set"@,
        iface,
        "peer"@,
        key,
        "allowed-ips"@,
        ip + "/32"@,
    ]);
}

/// Why a registration is refused: no address is left, the peer could not be added, its name is
/// taken, or it could not be stored.
pub proof fn law_refusals(
    wg: WireGuardConfigView,
    name: Seq<char>,
    key: Seq<char>,
    peers: Seq<PeerRowView>,
    ip: Seq<char>,
    change: PeerChangeView,
    s: Option<bool>,
    why: Seq<char>,
)
    ensures
        next_ip(wg.worker_ip_pool, peers) is None ==> register_step(
            wg,
            name,
            key,
            RegisterStageView::Listing,
            ReplyView::Peers(peers),
        ) == (RegisterStageView::Done(Err("IP pool exhausted"@)), StepView::stop()),
        s != Some(true) ==> register_step(
            wg,
            name,
            key,
            RegisterStageView::Adding { ip, change },
            ReplyView::Status(s),
        ) == (
            RegisterStageView::Done(
                Err("wg set peer failed \u{2014} is wireguard-tools installed?"@),
            ),
            StepView::stop(),
        ),
        register_step(
            wg,
            name,
            key,
            RegisterStageView::Adding { ip, change: PeerChangeView::NameTaken },
            ReplyView::Status(Some(true)),
        ) == (
            RegisterStageView::Done(Err("UNIQUE constraint failed: wg_peers.worker_name"@)),
            StepView::stop(),
        ),
        register_step(
            wg,
            name,
            key,
            RegisterStageView::Saving { ip },
            ReplyView::Written(Err(why)),
        ) == (RegisterStageView::Done(Err(why)), StepView::stop()),
{
}

/// The parts of a pool that are numbers of a byte are kept in their order, and the others are left
/// out; a pool that has no four of them has no addresses.
pub proof fn law_parts_of_a_pool(list: Seq<Seq<char>>, s: Seq<char>, peers: Seq<PeerRowView>)
    ensures
        byte_parts(Seq::empty()).len() == 0,
        text::byte_value(s) matches Some(b) ==> byte_parts(list.push(s)) == byte_parts(list).push(b),
        text::byte_value(s) is None ==> byte_parts(list.push(s)) == byte_parts(list),
        pool_parts(s) == byte_parts(text::pieces(text::before(s, "/"@), "."@)),
        pool_parts(s).len() != 4 ==> next_ip(s, peers) is None,
{
    assert(list.push(s).drop_last() =~= list);
}

/// Where a reply is not of the kind that was asked for, nothing is done and the same is awaited; once all
/// is done, nothing changes any more.
pub proof fn law_other_replies_change_nothing(
    wg: WireGuardConfigView,
    name: Seq<char>,
    key: Seq<char>,
    stage: RegisterStageView,
    reply: ReplyView,
)
    ensures
        stage is Listing && !(reply is Peers) ==> register_step(wg, name, key, stage, reply) == (stage, StepView::stop()),
        stage is Adding && !(reply is Status) ==> register_step(wg, name, key, stage, reply) == (stage, StepView::stop()),
        stage is Timing && !(reply is Time) ==> register_step(wg, name, key, stage, reply) == (stage, StepView::stop()),
        stage is Saving && !(reply is Written) ==> register_step(wg, name, key, stage, reply) == (stage, StepView::stop()),
        stage is Done ==> register_step(wg, name, key, stage, reply) == (stage, StepView::stop()),
{
}

} // verus!
