//! Facts about one network interface: which are asked for, and how the
//! addresses among them are derived.

use crate::ascii::{copy_bytes, texts};
use crate::text::{ascii_text, is_text};
use vstd::arithmetic::power2::pow2;
use vstd::prelude::*;

verus! {

/// One thing to do with the interface.
#[derive(Clone, Copy, Debug, PartialEq, Eq, Structural)]
pub enum Op {
    ExitExistence,
    PrintConfiguration,
    PrintExistence,
    PrintAddress,
    PrintNetmask,
    PrintNetworkAddress,
    PrintBroadcast,
    PrintMtu,
    PrintMac,
    PrintInputStats,
    PrintInputPackets,
    PrintInputBytes,
    PrintInputErrors,
    PrintOutputStats,
    PrintOutputPackets,
    PrintOutputBytes,
    PrintOutputErrors,
    PrintInputBytesOverSecond,
    PrintOutputBytesOverSecond,
}

/// The operation that an argument asks for, if it is one of the options.
pub open spec fn op_of(token: Seq<char>) -> Option<Op> {
    if token == "-e"@ {
        Some(Op::ExitExistence)
    } else if token == "-p"@ {
        Some(Op::PrintConfiguration)
    } else if token == "-pe"@ {
        Some(Op::PrintExistence)
    } else if token == "-pa"@ {
        Some(Op::PrintAddress)
    } else if token == "-pn"@ {
        Some(Op::PrintNetmask)
    } else if token == "-pN"@ {
        Some(Op::PrintNetworkAddress)
    } else if token == "-pb"@ {
        Some(Op::PrintBroadcast)
    } else if token == "-pm"@ {
        Some(Op::PrintMtu)
    } else if token == "-ph"@ {
        Some(Op::PrintMac)
    } else if token == "-si"@ {
        Some(Op::PrintInputStats)
    } else if token == "-sip"@ {
        Some(Op::PrintInputPackets)
    } else if token == "-sib"@ {
        Some(Op::PrintInputBytes)
    } else if token == "-sie"@ {
        Some(Op::PrintInputErrors)
    } else if token == "-so"@ {
        Some(Op::PrintOutputStats)
    } else if token == "-sop"@ {
        Some(Op::PrintOutputPackets)
    } else if token == "-sob"@ {
        Some(Op::PrintOutputBytes)
    } else if token == "-soe"@ {
        Some(Op::PrintOutputErrors)
    } else if token == "-bips"@ {
        Some(Op::PrintInputBytesOverSecond)
    } else if token == "-bops"@ {
        Some(Op::PrintOutputBytesOverSecond)
    } else {
        None
    }
}

/// Whether an operation needs two readings of the counters, a second apart.
pub open spec fn needs_refresh(op: Op) -> bool {
    op == Op::PrintInputBytesOverSecond || op == Op::PrintOutputBytesOverSecond
}

/// The operation that an argument asks for, if it is one of the options.
pub fn read_op(token: &Vec<u8>) -> (op: Option<Op>)
    ensures
        op == op_of(ascii_text(token@)),
{
    if is_text(token, "-e") {
        Some(Op::ExitExistence)
    } else if is_text(token, "-p") {
        Some(Op::PrintConfiguration)
    } else if is_text(token, "-pe") {
        Some(Op::PrintExistence)
    } else if is_text(token, "-pa") {
        Some(Op::PrintAddress)
    } else if is_text(token, "-pn") {
        Some(Op::PrintNetmask)
    } else if is_text(token, "-pN") {
        Some(Op::PrintNetworkAddress)
    } else if is_text(token, "-pb") {
        Some(Op::PrintBroadcast)
    } else if is_text(token, "-pm") {
        Some(Op::PrintMtu)
    } else if is_text(token, "-ph") {
        Some(Op::PrintMac)
    } else if is_text(token, "-si") {
        Some(Op::PrintInputStats)
    } else if is_text(token, "-sip") {
        Some(Op::PrintInputPackets)
    } else if is_text(token, "-sib") {
        Some(Op::PrintInputBytes)
    } else if is_text(token, "-sie") {
        Some(Op::PrintInputErrors)
    } else if is_text(token, "-so") {
        Some(Op::PrintOutputStats)
    } else if is_text(token, "-sop") {
        Some(Op::PrintOutputPackets)
    } else if is_text(token, "-sob") {
        Some(Op::PrintOutputBytes)
    } else if is_text(token, "-soe") {
        Some(Op::PrintOutputErrors)
    } else if is_text(token, "-bips") {
        Some(Op::PrintInputBytesOverSecond)
    } else if is_text(token, "-bops") {
        Some(Op::PrintOutputBytesOverSecond)
    } else {
        None
    }
}

/// What a command line asks for.
#[derive(Clone, Debug, PartialEq, Eq)]
pub struct Args {
    /// The operations, in the order they were given.
    pub ops: Vec<Op>,
    /// The name of the interface.
    pub interface: Vec<u8>,
    /// Whether any operation needs two readings of the counters.
    pub refresh_one_second: bool,
}

/// The mathematical value of [`Args`].
pub struct ArgsView {
    pub ops: Seq<Op>,
    pub interface: Seq<u8>,
    pub refresh_one_second: bool,
}

impl View for Args {
    type V = ArgsView;

    open spec fn view(&self) -> ArgsView {
        ArgsView {
            ops: self.ops@,
            interface: self.interface@,
            refresh_one_second: self.refresh_one_second,
        }
    }
}

/// How the reading of a command line ended.
#[derive(Clone, Debug, PartialEq, Eq)]
pub enum Request {
    /// `-h` was met: the usage is to be shown.
    Help,
    /// No interface was named.
    MissingInterface,
    /// The operations and the interface.
    Run(Args),
}

/// The mathematical value of [`Request`].
pub enum RequestView {
    Help,
    MissingInterface,
    Run(ArgsView),
}

impl View for Request {
    type V = RequestView;

    open spec fn view(&self) -> RequestView {
        match self {
            Request::Help => RequestView::Help,
            Request::MissingInterface => RequestView::MissingInterface,
            Request::Run(args) => RequestView::Run(args@),
        }
    }
}

/// Whether `-h` is among `tokens`.
pub open spec fn asks_for_help(tokens: Seq<Seq<u8>>) -> bool {
    exists|i: int| 0 <= i < tokens.len() && ascii_text(#[trigger] tokens[i]) == "-h"@
}

/// The operations that `tokens` ask for, in order.
pub open spec fn ops_of(tokens: Seq<Seq<u8>>) -> Seq<Op>
    decreases tokens.len(),
{
    if tokens.len() == 0 {
        Seq::empty()
    } else {
        match op_of(ascii_text(tokens.last())) {
            Some(op) => ops_of(tokens.drop_last()).push(op),
            None => ops_of(tokens.drop_last()),
        }
    }
}

/// The interface that `tokens` name: the last token that is no option.
pub open spec fn interface_of(tokens: Seq<Seq<u8>>) -> Option<Seq<u8>>
    decreases tokens.len(),
{
    if tokens.len() == 0 {
        None
    } else if op_of(ascii_text(tokens.last())) is None {
        Some(tokens.last())
    } else {
        interface_of(tokens.drop_last())
    }
}

/// Whether any of `ops` needs two readings of the counters.
pub open spec fn any_needs_refresh(ops: Seq<Op>) -> bool {
    exists|i: int| 0 <= i < ops.len() && needs_refresh(#[trigger] ops[i])
}

/// What the arguments of the program ask for. `-h` anywhere asks for the
/// usage; else every option adds an operation and the last other argument
/// names the interface.
pub open spec fn parsed(tokens: Seq<Seq<u8>>) -> RequestView {
    if asks_for_help(tokens) {
        RequestView::Help
    } else {
        match interface_of(tokens) {
            None => RequestView::MissingInterface,
            Some(interface) => RequestView::Run(
                ArgsView {
                    ops: ops_of(tokens),
                    interface,
                    refresh_one_second: any_needs_refresh(ops_of(tokens)),
                },
            ),
        }
    }
}

/// Reads the arguments of the program, without its name.
pub fn parse_args(tokens: &Vec<Vec<u8>>) -> (result: Request)
    ensures
        result@ == parsed(texts(tokens@)),
{
    let ghost all = texts(tokens@);
    let mut ops: Vec<Op> = Vec::new();
    let mut interface: Option<Vec<u8>> = None;
    let mut refresh = false;
    let mut i: usize = 0;
    assert(all.take(0) =~= Seq::<Seq<u8>>::empty());
    while i < tokens.len()
        invariant
            i <= tokens.len(),
            all == texts(tokens@),
            !asks_for_help(all.take(i as int)),
            ops@ == ops_of(all.take(i as int)),
            match interface {
                Some(name) => interface_of(all.take(i as int)) == Some(name@),
                None => interface_of(all.take(i as int)) is None,
            },
            refresh == any_needs_refresh(ops@),
        decreases tokens.len() - i,
    {
        let token = &tokens[i];
        let ghost before = all.take(i as int);
        let ghost now = all.take(i + 1);
        proof {
            assert(all[i as int] == token@);
            assert(now.drop_last() =~= before);
            assert(now.last() == token@);
            reveal_strlit("-h");
            reveal_strlit("-e");
            reveal_strlit("-p");
            reveal_strlit("-pe");
            reveal_strlit("-pa");
            reveal_strlit("-pn");
            reveal_strlit("-pN");
            reveal_strlit("-pb");
            reveal_strlit("-pm");
            reveal_strlit("-ph");
            reveal_strlit("-si");
            reveal_strlit("-sip");
            reveal_strlit("-sib");
            reveal_strlit("-sie");
            reveal_strlit("-so");
            reveal_strlit("-sop");
            reveal_strlit("-sob");
            reveal_strlit("-soe");
            reveal_strlit("-bips");
            reveal_strlit("-bops");
        }
        if is_text(token, "-h") {
            proof {
                assert(ascii_text(all[i as int]) == "-h"@);
            }
            return Request::Help;
        }
        match read_op(token) {
            Some(op) => {
                let ghost old_ops = ops@;
                ops.push(op);
                if op == Op::PrintInputBytesOverSecond || op == Op::PrintOutputBytesOverSecond {
                    refresh = true;
                }
                proof {
                    assert(needs_refresh(op) ==> needs_refresh(ops@[ops@.len() - 1]));
                    if any_needs_refresh(old_ops) {
                        let k = choose|k: int| 0 <= k < old_ops.len() && needs_refresh(old_ops[k]);
                        assert(needs_refresh(ops@[k]));
                    }
                    if any_needs_refresh(ops@) && !needs_refresh(op) {
                        let k = choose|k: int| 0 <= k < ops@.len() && needs_refresh(ops@[k]);
                        assert(needs_refresh(old_ops[k]));
                    }
                }
            },
            None => {
                interface = Some(copy_bytes(token));
            },
        }
        proof {
            if asks_for_help(now) {
                let k = choose|k: int| 0 <= k < now.len() && ascii_text(#[trigger] now[k]) == "-h"@;
                if k < i {
                    assert(before[k] == now[k]);
                }
            }
        }
        i += 1;
    }
    proof {
        assert(all.take(i as int) =~= all);
    }
    match interface {
        Some(name) => Request::Run(Args { ops, interface: name, refresh_one_second: refresh }),
        None => Request::MissingInterface,
    }
}

/// An address of the Internet protocol.
#[derive(Clone, Copy, Debug, PartialEq, Eq, Structural)]
pub enum IpAddress {
    /// The four bytes of a version 4 address, the first one highest.
    V4(u32),
    /// The sixteen bytes of a version 6 address, the first one highest.
    V6(u128),
}

/// An address of an interface with the length of its network prefix.
#[derive(Clone, Copy, Debug, PartialEq, Eq, Structural)]
pub struct IpNetwork {
    pub addr: IpAddress,
    pub prefix: u8,
}

impl IpNetwork {
    /// A version 4 prefix is at most 32 bits long.
    pub open spec fn wf(self) -> bool {
        self.addr is V4 ==> self.prefix <= 32
    }
}

/// What is known of one interface.
#[derive(Clone, Debug, PartialEq, Eq)]
pub struct Interface {
    /// Its addresses, in the order the system lists them.
    pub ip_networks: Vec<IpNetwork>,
    /// Its hardware address.
    pub mac_address: [u8; 6],
    /// Its maximum transfer unit.
    pub mtu: u64,
    pub total_received: u64,
    pub total_packets_received: u64,
    pub total_errors_on_received: u64,
    pub total_transmitted: u64,
    pub total_packets_transmitted: u64,
    pub total_errors_on_transmitted: u64,
    /// Bytes received since the reading before.
    pub received: u64,
    /// Bytes transmitted since the reading before.
    pub transmitted: u64,
}

/// Whether every network of the list is well-formed.
pub open spec fn networks_wf(networks: Seq<IpNetwork>) -> bool {
    forall|i: int| 0 <= i < networks.len() ==> (#[trigger] networks[i]).wf()
}

/// The first network of the list with a version 4 address.
pub open spec fn first_v4(networks: Seq<IpNetwork>) -> Option<IpNetwork>
    decreases networks.len(),
{
    if networks.len() == 0 {
        None
    } else if networks[0].addr is V4 {
        Some(networks[0])
    } else {
        first_v4(networks.skip(1))
    }
}

/// The first network with a version 4 address is one: it stands in the list,
/// and none before it has a version 4 address.
pub proof fn lemma_first_v4(networks: Seq<IpNetwork>)
    ensures
        match first_v4(networks) {
            Some(network) => exists|i: int|
                0 <= i < networks.len() && networks[i] == network && network.addr is V4 && forall|
                    j: int,
                |
                    0 <= j < i ==> !((#[trigger] networks[j]).addr is V4),
            None => forall|j: int|
                0 <= j < networks.len() ==> !((#[trigger] networks[j]).addr is V4),
        },
    decreases networks.len(),
{
    if networks.len() > 0 {
        if networks[0].addr is V4 {
            assert(networks[0] == first_v4(networks).unwrap());
        } else {
            let rest = networks.skip(1);
            lemma_first_v4(rest);
            match first_v4(rest) {
                Some(network) => {
                    let i = choose|i: int|
                        0 <= i < rest.len() && rest[i] == network && network.addr is V4 && forall|
                            j: int,
                        |
                            0 <= j < i ==> !((#[trigger] rest[j]).addr is V4);
                    assert(networks[i + 1] == network);
                    assert forall|j: int| 0 <= j < i + 1 implies !((#[trigger] networks[j]).addr
                        is V4) by {
                        if j > 0 {
                            assert(networks[j] == rest[j - 1]);
                        }
                    }
                },
                None => {
                    assert forall|j: int| 0 <= j < networks.len() implies !((
                    #[trigger] networks[j]).addr is V4) by {
                        if j > 0 {
                            assert(networks[j] == rest[j - 1]);
                        }
                    }
                },
            }
        }
    }
}

/// The network mask of a prefix of `prefix` bits: that many one bits from
/// the top, zero bits below.
pub open spec fn mask_of(prefix: u8) -> u32 {
    if prefix == 0 {
        0
    } else {
        0xffff_ffffu32 << ((32 - prefix) as u32)
    }
}

/// The mask of a prefix as a number: 2^32 less 2^(32 - prefix).
pub proof fn lemma_mask_value(prefix: u8)
    requires
        prefix <= 32,
    ensures
        mask_of(prefix) as int == pow2(32) - pow2((32 - prefix) as nat),
{
    let n = (32 - prefix) as u32;
    vstd::arithmetic::power2::lemma2_to64();
    if prefix == 0 {
    } else {
        assert(0xffff_ffffu32 << n == 0x1_0000_0000 - (1u64 << n)) by (bit_vector)
            requires
                n < 32,
        ;
        vstd::bits::lemma_u64_shl_is_mul(1u64, n as u64);
    }
}

/// The first version 4 address of the list.
pub open spec fn address_of(networks: Seq<IpNetwork>) -> Option<u32> {
    match first_v4(networks) {
        Some(network) => Some(network.addr->V4_0),
        None => None,
    }
}

/// The network mask of the first version 4 address of the list.
pub open spec fn netmask_of(networks: Seq<IpNetwork>) -> Option<u32> {
    match first_v4(networks) {
        Some(network) => Some(mask_of(network.prefix)),
        None => None,
    }
}

/// The address of the network of the first version 4 address: the bits of
/// the address under the mask.
pub open spec fn network_address_of(networks: Seq<IpNetwork>) -> Option<u32> {
    match first_v4(networks) {
        Some(network) => Some(network.addr->V4_0 & mask_of(network.prefix)),
        None => None,
    }
}

/// The broadcast address of the network of the first version 4 address: the
/// address with every bit outside the mask set.
pub open spec fn broadcast_of(networks: Seq<IpNetwork>) -> Option<u32> {
    match first_v4(networks) {
        Some(network) => Some(network.addr->V4_0 | (0xffff_ffffu32 ^ mask_of(network.prefix))),
        None => None,
    }
}

/// The network address and the broadcast address of an address share its
/// bits under the mask; below the mask the one has no bit set and the other
/// has every bit set.
pub proof fn lemma_network_and_broadcast(address: u32, prefix: u8)
    requires
        prefix <= 32,
    ensures
        ({
            let mask = mask_of(prefix);
            let network = address & mask;
            let broadcast = address | (0xffff_ffffu32 ^ mask);
            &&& network & mask == address & mask
            &&& broadcast & mask == address & mask
            &&& network & (0xffff_ffffu32 ^ mask) == 0
            &&& broadcast & (0xffff_ffffu32 ^ mask) == 0xffff_ffffu32 ^ mask
            &&& network <= address <= broadcast
        }),
{
    let mask = mask_of(prefix);
    assert({
        let network = address & mask;
        let broadcast = address | (0xffff_ffffu32 ^ mask);
        &&& network & mask == address & mask
        &&& broadcast & mask == address & mask
        &&& network & (0xffff_ffffu32 ^ mask) == 0
        &&& broadcast & (0xffff_ffffu32 ^ mask) == 0xffff_ffffu32 ^ mask
        &&& network <= address <= broadcast
    }) by (bit_vector);
}

/// The first version 4 network of the list.
fn find_v4(networks: &Vec<IpNetwork>) -> (found: Option<IpNetwork>)
    ensures
        found == first_v4(networks@),
        found is Some && networks_wf(networks@) ==> found.unwrap().wf(),
        found matches Some(network) ==> network.addr is V4,
{
    let mut i: usize = 0;
    assert(networks@.skip(0) =~= networks@);
    while i < networks.len()
        invariant
            i <= networks.len(),
            first_v4(networks@) == first_v4(networks@.skip(i as int)),
        decreases networks.len() - i,
    {
        let network = networks[i];
        assert(networks@.skip(i as int)[0] == network);
        match network.addr {
            IpAddress::V4(_) => {
                return Some(network);
            },
            IpAddress::V6(_) => {
                assert(networks@.skip(i as int).skip(1) =~= networks@.skip(i + 1));
            },
        }
        i += 1;
    }
    assert(networks@.skip(i as int).len() == 0);
    None
}

/// The network mask of a prefix of `prefix` bits.
pub fn ipv4_prefix_to_mask(prefix: u8) -> (mask: u32)
    requires
        prefix <= 32,
    ensures
        mask == mask_of(prefix),
{
    if prefix == 0 {
        0
    } else {
        u32::MAX << ((32 - prefix) as u32)
    }
}

/// The network mask of a prefix, as an address.
pub fn ipv4_netmask_addr(prefix: u8) -> (mask: IpAddress)
    requires
        prefix <= 32,
    ensures
        mask == IpAddress::V4(mask_of(prefix)),
{
    IpAddress::V4(ipv4_prefix_to_mask(prefix))
}

/// The first version 4 address of the interface.
pub fn get_address(networks: &Vec<IpNetwork>) -> (address: Option<IpAddress>)
    ensures
        address == match first_v4(networks@) {
            Some(network) => Some(network.addr),
            None => None,
        },
        address matches Some(found) ==> found is V4,
{
    match find_v4(networks) {
        Some(network) => Some(network.addr),
        None => None,
    }
}

/// The network mask of the first version 4 address of the interface.
pub fn get_netmask(networks: &Vec<IpNetwork>) -> (mask: Option<u32>)
    requires
        networks_wf(networks@),
    ensures
        mask == netmask_of(networks@),
{
    match find_v4(networks) {
        Some(network) => Some(ipv4_prefix_to_mask(network.prefix)),
        None => None,
    }
}

/// The address of the network of the first version 4 address: the bits of
/// the address under the mask.
pub fn get_network_address(networks: &Vec<IpNetwork>) -> (address: Option<u32>)
    requires
        networks_wf(networks@),
    ensures
        address == network_address_of(networks@),
{
    match find_v4(networks) {
        Some(network) => match network.addr {
            IpAddress::V4(address) => Some(address & ipv4_prefix_to_mask(network.prefix)),
            IpAddress::V6(_) => None,
        },
        None => None,
    }
}

/// The broadcast address of the network of the first version 4 address:
/// the address with every bit outside the mask set.
pub fn get_broadcast(networks: &Vec<IpNetwork>) -> (address: Option<u32>)
    requires
        networks_wf(networks@),
    ensures
        address == broadcast_of(networks@),
{
    match find_v4(networks) {
        Some(network) => match network.addr {
            IpAddress::V4(address) => {
                let broadcast_mask = u32::MAX ^ ipv4_prefix_to_mask(network.prefix);
                Some(address | broadcast_mask)
            },
            IpAddress::V6(_) => None,
        },
        None => None,
    }
}

/// Whether a hardware address is the unspecified one, of six zero bytes.
pub open spec fn is_unspecified(mac: [u8; 6]) -> bool {
    forall|i: int| 0 <= i < 6 ==> mac@[i] == 0
}

/// The hardware address of the interface, unless it is unspecified.
pub fn get_mac(mac: [u8; 6]) -> (address: Option<[u8; 6]>)
    ensures
        address == if is_unspecified(mac) {
            None
        } else {
            Some(mac)
        },
{
    if mac[0] == 0 && mac[1] == 0 && mac[2] == 0 && mac[3] == 0 && mac[4] == 0 && mac[5] == 0 {
        None
    } else {
        Some(mac)
    }
}

/// One value on a line of output.
#[derive(Clone, Copy, Debug, PartialEq, Eq)]
pub enum Field {
    /// A version 4 address, printed as four decimal numbers with dots.
    Ipv4(u32),
    /// A number, printed in decimal.
    Number(u64),
    /// A hardware address.
    Mac([u8; 6]),
}

/// What is to be done for one operation.
#[derive(Clone, Debug, PartialEq, Eq)]
pub enum Answer {
    /// Leave at once with this status.
    Exit(i32),
    /// Print `yes` or `no` and leave with status 0.
    Existence(bool),
    /// Report that there is no such interface and leave with status 1.
    NoSuchInterface,
    /// Report that the interface has no hardware address and leave with
    /// status 1.
    NoHardwareAddress,
    /// Print these values on one line, with spaces between them, and go on;
    /// without values nothing is printed.
    Line(Vec<Field>),
}

/// The mathematical value of an [`Answer`].
pub enum AnswerView {
    Exit(i32),
    Existence(bool),
    NoSuchInterface,
    NoHardwareAddress,
    Line(Seq<Field>),
}

impl View for Answer {
    type V = AnswerView;

    open spec fn view(&self) -> AnswerView {
        match self {
            Answer::Exit(status) => AnswerView::Exit(*status),
            Answer::Existence(exists) => AnswerView::Existence(*exists),
            Answer::NoSuchInterface => AnswerView::NoSuchInterface,
            Answer::NoHardwareAddress => AnswerView::NoHardwareAddress,
            Answer::Line(fields) => AnswerView::Line(fields@),
        }
    }
}

/// One field where `value` is there, none where it is not.
pub open spec fn optional_field(value: Option<u32>) -> Seq<Field> {
    match value {
        Some(address) => seq![Field::Ipv4(address)],
        None => Seq::empty(),
    }
}

/// What is to be done for `op` on an interface that exists.
pub open spec fn answered_on(op: Op, interface: Interface) -> AnswerView {
    let networks = interface.ip_networks@;
    match op {
        Op::ExitExistence => AnswerView::Exit(0),
        Op::PrintExistence => AnswerView::Existence(true),
        Op::PrintAddress => AnswerView::Line(optional_field(address_of(networks))),
        Op::PrintNetmask => AnswerView::Line(optional_field(netmask_of(networks))),
        Op::PrintNetworkAddress => AnswerView::Line(optional_field(network_address_of(networks))),
        Op::PrintBroadcast => AnswerView::Line(optional_field(broadcast_of(networks))),
        Op::PrintMtu => AnswerView::Line(seq![Field::Number(interface.mtu)]),
        Op::PrintMac => if is_unspecified(interface.mac_address) {
            AnswerView::NoHardwareAddress
        } else {
            AnswerView::Line(seq![Field::Mac(interface.mac_address)])
        },
        Op::PrintConfiguration => AnswerView::Line(
            optional_field(address_of(networks)) + optional_field(netmask_of(networks))
                + optional_field(broadcast_of(networks)) + seq![Field::Number(interface.mtu)],
        ),
        Op::PrintInputPackets => AnswerView::Line(
            seq![Field::Number(interface.total_packets_received)],
        ),
        Op::PrintInputBytes => AnswerView::Line(seq![Field::Number(interface.total_received)]),
        Op::PrintInputErrors => AnswerView::Line(
            seq![Field::Number(interface.total_errors_on_received)],
        ),
        Op::PrintInputStats => AnswerView::Line(
            seq![
                Field::Number(interface.total_received),
                Field::Number(interface.total_packets_received),
                Field::Number(interface.total_errors_on_received),
            ],
        ),
        Op::PrintOutputPackets => AnswerView::Line(
            seq![Field::Number(interface.total_packets_transmitted)],
        ),
        Op::PrintOutputBytes => AnswerView::Line(seq![Field::Number(interface.total_transmitted)]),
        Op::PrintOutputErrors => AnswerView::Line(
            seq![Field::Number(interface.total_errors_on_transmitted)],
        ),
        Op::PrintOutputStats => AnswerView::Line(
            seq![
                Field::Number(interface.total_transmitted),
                Field::Number(interface.total_packets_transmitted),
                Field::Number(interface.total_errors_on_transmitted),
            ],
        ),
        Op::PrintInputBytesOverSecond => AnswerView::Line(seq![Field::Number(interface.received)]),
        Op::PrintOutputBytesOverSecond => AnswerView::Line(
            seq![Field::Number(interface.transmitted)],
        ),
    }
}

/// What is to be done for `op` where there is no such interface.
pub open spec fn answered_without(op: Op) -> AnswerView {
    match op {
        Op::ExitExistence => AnswerView::Exit(1),
        Op::PrintExistence => AnswerView::Existence(false),
        _ => AnswerView::NoSuchInterface,
    }
}

/// Adds the field of `value`, if there is one.
fn push_optional(fields: &mut Vec<Field>, value: Option<u32>)
    ensures
        final(fields)@ == old(fields)@ + optional_field(value),
{
    match value {
        Some(address) => {
            fields.push(Field::Ipv4(address));
            assert(fields@ =~= old(fields)@ + optional_field(value));
        },
        None => {
            assert(fields@ =~= old(fields)@ + optional_field(value));
        },
    }
}

/// The first version 4 address of the interface, as a number.
fn address_number(networks: &Vec<IpNetwork>) -> (address: Option<u32>)
    ensures
        address == address_of(networks@),
{
    match get_address(networks) {
        Some(IpAddress::V4(address)) => Some(address),
        _ => None,
    }
}

/// One line with the one value.
fn single(field: Field) -> (answer: Answer)
    ensures
        answer@ == AnswerView::Line(seq![field]),
{
    let mut fields: Vec<Field> = Vec::new();
    fields.push(field);
    assert(fields@ =~= seq![field]);
    Answer::Line(fields)
}

/// One line with three numbers.
fn triple(first: u64, second: u64, third: u64) -> (answer: Answer)
    ensures
        answer@ == AnswerView::Line(
            seq![Field::Number(first), Field::Number(second), Field::Number(third)],
        ),
{
    let mut fields: Vec<Field> = Vec::new();
    fields.push(Field::Number(first));
    fields.push(Field::Number(second));
    fields.push(Field::Number(third));
    assert(fields@ =~= seq![Field::Number(first), Field::Number(second), Field::Number(third)]);
    Answer::Line(fields)
}

/// One line with the value, or with nothing.
fn optional(value: Option<u32>) -> (answer: Answer)
    ensures
        answer@ == AnswerView::Line(optional_field(value)),
{
    let mut fields: Vec<Field> = Vec::new();
    push_optional(&mut fields, value);
    assert(fields@ =~= optional_field(value));
    Answer::Line(fields)
}

/// What is to be done for `op`; `interface` is `None` where there is no
/// interface of the name that was asked for.
pub fn answer(op: Op, interface: Option<&Interface>) -> (answer: Answer)
    requires
        interface matches Some(found) ==> networks_wf(found.ip_networks@),
    ensures
        answer@ == match interface {
            Some(found) => answered_on(op, *found),
            None => answered_without(op),
        },
{
    let found = match interface {
        Some(found) => found,
        None => {
            return match op {
                Op::ExitExistence => Answer::Exit(1),
                Op::PrintExistence => Answer::Existence(false),
                _ => Answer::NoSuchInterface,
            };
        },
    };
    let networks = &found.ip_networks;
    match op {
        Op::ExitExistence => Answer::Exit(0),
        Op::PrintExistence => Answer::Existence(true),
        Op::PrintAddress => optional(address_number(networks)),
        Op::PrintNetmask => optional(get_netmask(networks)),
        Op::PrintNetworkAddress => optional(get_network_address(networks)),
        Op::PrintBroadcast => optional(get_broadcast(networks)),
        Op::PrintMtu => single(Field::Number(found.mtu)),
        Op::PrintMac => match get_mac(found.mac_address) {
            Some(mac) => single(Field::Mac(mac)),
            None => Answer::NoHardwareAddress,
        },
        Op::PrintConfiguration => {
            let mut fields: Vec<Field> = Vec::new();
            push_optional(&mut fields, address_number(networks));
            push_optional(&mut fields, get_netmask(networks));
            push_optional(&mut fields, get_broadcast(networks));
            fields.push(Field::Number(found.mtu));
            assert(fields@ =~= optional_field(address_of(networks@)) + optional_field(
                netmask_of(networks@),
            ) + optional_field(broadcast_of(networks@)) + seq![Field::Number(found.mtu)]);
            Answer::Line(fields)
        },
        Op::PrintInputPackets => single(Field::Number(found.total_packets_received)),
        Op::PrintInputBytes => single(Field::Number(found.total_received)),
        Op::PrintInputErrors => single(Field::Number(found.total_errors_on_received)),
        Op::PrintInputStats => triple(
            found.total_received,
            found.total_packets_received,
            found.total_errors_on_received,
        ),
        Op::PrintOutputPackets => single(Field::Number(found.total_packets_transmitted)),
        Op::PrintOutputBytes => single(Field::Number(found.total_transmitted)),
        Op::PrintOutputErrors => single(Field::Number(found.total_errors_on_transmitted)),
        Op::PrintOutputStats => triple(
            found.total_transmitted,
            found.total_packets_transmitted,
            found.total_errors_on_transmitted,
        ),
        Op::PrintInputBytesOverSecond => single(Field::Number(found.received)),
        Op::PrintOutputBytesOverSecond => single(Field::Number(found.transmitted)),
    }
}

/// The text that explains the command line.
pub open spec fn usage_text() -> Seq<char> {
    "Usage: ifdata [OPTION]... INTERFACE\nGet network interface info without parsing ifconfig output\n\n  -h    Display this help text and exit\n  -e    Reports interface existence via return code\n  -p    Print out the whole config of interface\n  -pe   Print out yes or no according to existence\n  -pa   Print out the address\n  -pn   Print out the netmask\n  -pN   Print out the network address\n  -pb   Print out the broadcast address\n  -pm   Print out the MTU\n  -ph   Print out the hardware address\n  -sip  Print out the number of input packets\n  -sib  Print out the number of input bytes\n  -sie  Print out the number of input errors\n  -sop  Print out the number of input packets\n  -sob  Print out the number of input bytes\n  -soe  Print out the number of input errors\n"@
}

/// The usage message.
pub fn usage() -> (text: &'static str)
    ensures
        text@ == usage_text(),
{
    "Usage: ifdata [OPTION]... INTERFACE\nGet network interface info without parsing ifconfig output\n\n  -h    Display this help text and exit\n  -e    Reports interface existence via return code\n  -p    Print out the whole config of interface\n  -pe   Print out yes or no according to existence\n  -pa   Print out the address\n  -pn   Print out the netmask\n  -pN   Print out the network address\n  -pb   Print out the broadcast address\n  -pm   Print out the MTU\n  -ph   Print out the hardware address\n  -sip  Print out the number of input packets\n  -sib  Print out the number of input bytes\n  -sie  Print out the number of input errors\n  -sop  Print out the number of input packets\n  -sob  Print out the number of input bytes\n  -soe  Print out the number of input errors\n"
}

} // verus!
