//! The network provisioner.
//!
//! The host describes each interface by hardware address, IP address and
//! gateway. The provisioner finds the guest's interface with that hardware
//! address and writes its configuration for one of two backends: a single
//! netplan document for all interfaces, or one interface script each for
//! the sysconfig network service.
//!
//! Nothing here touches the system. [`init_net`] takes the interface
//! listing as it was read and returns the files to write and the command
//! to run.

use crate::common::{GVMError, Network, NetworkView};
use crate::text::{
    decimal_text, find_from, first_at, is_unsigned, lemma_first_at, octet_text, parse_at_most,
    strip_newline, trim_newline, unsigned_value,
};
use vstd::prelude::*;

verus! {

/// Where the guest lists its network interfaces, one directory each.
pub const INTERFACE_DIR: &'static str = "/sys/class/net/";

/// The file, inside an interface's directory, that holds its hardware
/// address.
pub const ADDRESS_FILE: &'static str = "/address";

/// The directory whose presence selects the netplan backend.
pub const NETPLAN_DIR: &'static str = "/etc/netplan";

/// The largest prefix length of an IPv4 network.
pub const MAX_PREFIX: u32 = 32;

/// One entry of the guest's interface listing.
#[derive(Debug, Clone, PartialEq, Eq)]
pub struct Interface {
    /// The interface's name.
    pub name: String,
    /// What its address file holds, or `None` where that could not be
    /// read.
    pub address: Option<String>,
}

/// An [`Interface`] as contracts see it.
pub struct InterfaceView {
    pub name: Seq<char>,
    pub address: Option<Seq<char>>,
}

impl View for Interface {
    type V = InterfaceView;

    open spec fn view(&self) -> InterfaceView {
        InterfaceView {
            name: self.name@,
            address: match self.address {
                Some(a) => Some(a@),
                None => None,
            },
        }
    }
}

impl DeepView for Interface {
    type V = InterfaceView;

    open spec fn deep_view(&self) -> InterfaceView {
        self@
    }
}

/// What a search for a hardware address comes to: the name of the first
/// interface that carries it, `IOError` if an interface before that could
/// not be read, `NicNotFound` if the listing ends without a match.
pub open spec fn find_mac_spec(mac: Seq<char>, interfaces: Seq<InterfaceView>) -> Result<
    Seq<char>,
    GVMError,
>
    decreases interfaces.len(),
{
    if interfaces.len() == 0 {
        Err(GVMError::NicNotFound)
    } else {
        match interfaces[0].address {
            None => Err(GVMError::IOError),
            Some(address) => if trim_newline(address) == mac {
                Ok(interfaces[0].name)
            } else {
                find_mac_spec(mac, interfaces.drop_first())
            },
        }
    }
}

/// A `Result` that carries text, with the text seen as a sequence.
pub open spec fn text_result(r: Result<String, GVMError>) -> Result<Seq<char>, GVMError> {
    match r {
        Ok(s) => Ok(s@),
        Err(e) => Err(e),
    }
}

/// Searches the interface listing for the hardware address `mac` and
/// returns the name of the interface that has it.
///
/// Addresses are compared as text, exactly, after one trailing line feed
/// is taken off the listed address.
pub fn find_mac(mac: &String, interfaces: &Vec<Interface>) -> (r: Result<String, GVMError>)
    ensures
        text_result(r) == find_mac_spec(mac@, interfaces.deep_view()),
{
    let ghost all = interfaces.deep_view();
    assert(all.subrange(0, all.len() as int) =~= all);
    let mut i: usize = 0;
    while i < interfaces.len()
        invariant
            i <= interfaces.len(),
            all == interfaces.deep_view(),
            find_mac_spec(mac@, all) == find_mac_spec(mac@, all.subrange(i as int, all.len() as int)),
        decreases interfaces.len() - i,
    {
        let ghost rest = all.subrange(i as int, all.len() as int);
        assert(rest[0] == interfaces[i as int]@);
        assert(rest.drop_first() =~= all.subrange(i + 1, all.len() as int));
        match &interfaces[i].address {
            None => {
                return Err(GVMError::IOError);
            },
            Some(address) => {
                let listed = String::from_str(strip_newline(address.as_str()));
                if listed == *mac {
                    return Ok(interfaces[i].name.clone());
                }
            },
        }
        i = i + 1;
    }
    Err(GVMError::NicNotFound)
}

/// Whether no interface of the listing carries `mac`, all of them being
/// readable.
pub open spec fn no_interface_has(mac: Seq<char>, interfaces: Seq<InterfaceView>) -> bool {
    forall|i: int|
        0 <= i < interfaces.len() ==> (#[trigger] interfaces[i]).address is Some && trim_newline(
            interfaces[i].address->Some_0,
        ) != mac
}

/// A search through a listing in which no interface carries the address
/// ends in `NicNotFound`.
pub proof fn lemma_find_mac_none(mac: Seq<char>, interfaces: Seq<InterfaceView>)
    requires
        no_interface_has(mac, interfaces),
    ensures
        find_mac_spec(mac, interfaces) == Err::<Seq<char>, GVMError>(GVMError::NicNotFound),
    decreases interfaces.len(),
{
    if interfaces.len() > 0 {
        assert(interfaces[0].address is Some);
        let rest = interfaces.drop_first();
        assert forall|i: int| 0 <= i < rest.len() implies (#[trigger] rest[i]).address is Some
            && trim_newline(rest[i].address->Some_0) != mac by {
            assert(rest[i] == interfaces[i + 1]);
        }
        lemma_find_mac_none(mac, rest);
    }
}

/// The position of the slash that ends the gateway's address, or the
/// length of `gateway` if it holds no slash.
pub open spec fn gateway_slash(gateway: Seq<char>) -> int {
    first_at(gateway, '/', 0)
}

/// The gateway's address: the text before the first slash.
pub open spec fn gateway_address(gateway: Seq<char>) -> Seq<char> {
    gateway.subrange(0, gateway_slash(gateway))
}

/// The gateway's prefix length as it is written: the text between the
/// first slash and the next one, or the end.
pub open spec fn gateway_prefix(gateway: Seq<char>) -> Seq<char> {
    let start = gateway_slash(gateway) + 1;
    gateway.subrange(start, first_at(gateway, '/', start))
}

/// Whether `gateway` has the form `address/prefix`, the prefix being an
/// unsigned number of at most 32.
pub open spec fn gateway_valid(gateway: Seq<char>) -> bool {
    &&& gateway_slash(gateway) < gateway.len()
    &&& is_unsigned(gateway_prefix(gateway))
    &&& unsigned_value(gateway_prefix(gateway)) <= MAX_PREFIX
}

/// The prefix length of a valid gateway, as a number.
pub open spec fn gateway_length(gateway: Seq<char>) -> nat {
    unsigned_value(gateway_prefix(gateway))
}

/// The parts of a descriptor's gateway field.
#[derive(Debug, Clone, PartialEq, Eq)]
pub struct Gateway {
    /// The gateway's address.
    pub address: String,
    /// The prefix length as the descriptor writes it.
    pub prefix: String,
    /// The prefix length as a number, at most 32.
    pub length: u32,
}

impl Gateway {
    /// Whether this is what parsing `gateway` gives.
    pub open spec fn is_parse_of(self, gateway: Seq<char>) -> bool {
        &&& self.address@ == gateway_address(gateway)
        &&& self.prefix@ == gateway_prefix(gateway)
        &&& self.length == gateway_length(gateway)
        &&& self.length <= MAX_PREFIX
    }
}

/// Splits a gateway field into address and prefix length.
///
/// Fails with `InvalidDescriptor` where the field holds no slash or where
/// what follows the slash is no number between 0 and 32.
pub fn parse_gateway(gateway: &str) -> (r: Result<Gateway, GVMError>)
    ensures
        match r {
            Ok(g) => gateway_valid(gateway@) && g.is_parse_of(gateway@),
            Err(e) => !gateway_valid(gateway@) && e == GVMError::InvalidDescriptor,
        },
{
    let n: usize = gateway.unicode_len();
    let slash: usize = find_from(gateway, '/', 0);
    if slash >= n {
        return Err(GVMError::InvalidDescriptor);
    }
    let end: usize = find_from(gateway, '/', slash + 1);
    proof {
        lemma_first_at(gateway@, '/', slash + 1);
    }
    let prefix: &str = gateway.substring_char(slash + 1, end);
    match parse_at_most(prefix, MAX_PREFIX) {
        None => Err(GVMError::InvalidDescriptor),
        Some(length) => Ok(
            Gateway {
                address: String::from_str(gateway.substring_char(0, slash)),
                prefix: String::from_str(prefix),
                length,
            },
        ),
    }
}

/// The subnet mask of a prefix length, as a number: 32 one bits, shifted
/// left by the number of host bits and cut to 32 bits.
pub open spec fn mask_bits(prefix: u32) -> u32 {
    ((0xFFFF_FFFFu64 << ((32 - prefix) as u64)) & 0xFFFF_FFFFu64) as u32
}

/// One byte of the subnet mask; `index` 0 is the most significant.
pub open spec fn mask_octet(prefix: u32, index: u32) -> u8 {
    ((mask_bits(prefix) >> ((24 - 8 * index) as u32)) & 0xFFu32) as u8
}

/// The subnet mask of a prefix length in dotted decimal, most significant
/// byte first.
pub open spec fn netmask_text(prefix: u32) -> Seq<char> {
    decimal_text(mask_octet(prefix, 0) as nat) + "."@ + decimal_text(mask_octet(prefix, 1) as nat)
        + "."@ + decimal_text(mask_octet(prefix, 2) as nat) + "."@ + decimal_text(
        mask_octet(prefix, 3) as nat,
    )
}

/// In the mask of a prefix length exactly the leading `prefix` bits are
/// set.
pub proof fn lemma_mask_bits(prefix: u32, bit: u32)
    requires
        prefix <= MAX_PREFIX,
        bit < 32,
    ensures
        ((mask_bits(prefix) >> bit) & 1 == 1) <==> bit >= 32 - prefix,
{
    assert(prefix <= 32 && bit < 32 ==> ((((((0xFFFF_FFFFu64 << ((32 - prefix) as u64))
        & 0xFFFF_FFFFu64) as u32) >> bit) & 1 == 1) <==> bit >= 32 - prefix)) by (bit_vector);
}

/// Computes the subnet mask of a prefix length in dotted decimal.
///
/// Fails with `InvalidDescriptor` for a prefix length above 32.
pub fn netmask(prefix: u32) -> (r: Result<String, GVMError>)
    ensures
        text_result(r) == if prefix <= MAX_PREFIX {
            Ok::<Seq<char>, GVMError>(netmask_text(prefix))
        } else {
            Err::<Seq<char>, GVMError>(GVMError::InvalidDescriptor)
        },
{
    if prefix > MAX_PREFIX {
        return Err(GVMError::InvalidDescriptor);
    }
    let host: u64 = (32 - prefix) as u64;
    let wide: u64 = (0xFFFF_FFFFu64 << host) & 0xFFFF_FFFFu64;
    assert(wide <= 0xFFFF_FFFFu64) by (bit_vector)
        requires
            wide == (0xFFFF_FFFFu64 << host) & 0xFFFF_FFFFu64,
    ;
    let bits: u32 = wide as u32;
    let b0: u32 = (bits >> 24) & 0xFF;
    let b1: u32 = (bits >> 16) & 0xFF;
    let b2: u32 = (bits >> 8) & 0xFF;
    let b3: u32 = bits & 0xFF;
    assert(b0 <= 255 && b1 <= 255 && b2 <= 255 && b3 <= 255 && b3 == (bits >> 0) & 0xFF)
        by (bit_vector)
        requires
            b0 == (bits >> 24) & 0xFF,
            b1 == (bits >> 16) & 0xFF,
            b2 == (bits >> 8) & 0xFF,
            b3 == bits & 0xFF,
    ;
    let mut r = octet_text(b0 as u8);
    r.append(".");
    r.append(octet_text(b1 as u8).as_str());
    r.append(".");
    r.append(octet_text(b2 as u8).as_str());
    r.append(".");
    r.append(octet_text(b3 as u8).as_str());
    Ok(r)
}

/// Why a descriptor cannot be applied, if it cannot: the failure of the
/// search for its interface, or else `InvalidDescriptor` for a gateway
/// that is not valid.
pub open spec fn descriptor_error(net: NetworkView, interfaces: Seq<InterfaceView>) -> Option<
    GVMError,
> {
    match find_mac_spec(net.mac, interfaces) {
        Err(e) => Some(e),
        Ok(_) => if gateway_valid(net.gateway) {
            None
        } else {
            Some(GVMError::InvalidDescriptor)
        },
    }
}

/// The name of the interface that a descriptor is for, where the search
/// for it succeeds.
pub open spec fn descriptor_nic(net: NetworkView, interfaces: Seq<InterfaceView>) -> Seq<char> {
    find_mac_spec(net.mac, interfaces)->Ok_0
}

/// The netplan entry of one interface: a static address with the
/// descriptor's prefix length, the gateway, and a fixed name server.
pub open spec fn netplan_stanza(net: NetworkView, nic: Seq<char>) -> Seq<char> {
    "    "@ + nic + ":\n"@ + "      dhcp4: false\n"@ + "      addresses:\n"@ + "        - "@
        + net.ip + "/"@ + gateway_prefix(net.gateway) + "\n"@ + "      gateway4: "@
        + gateway_address(net.gateway) + "\n"@ + "      nameservers:\n"@
        + "        addresses: [8.8.8.8]"@
}

/// What [`netplan_networking`] returns.
pub open spec fn netplan_spec(net: NetworkView, interfaces: Seq<InterfaceView>) -> Result<
    Seq<char>,
    GVMError,
> {
    match descriptor_error(net, interfaces) {
        Some(e) => Err(e),
        None => Ok(netplan_stanza(net, descriptor_nic(net, interfaces))),
    }
}

/// Writes the netplan entry for `net`, applied to the interface `nic`.
///
/// Fails with `InvalidDescriptor` where the gateway is not valid.
pub fn netplan_entry(net: &Network, nic: &str) -> (r: Result<String, GVMError>)
    ensures
        text_result(r) == if gateway_valid(net.gateway@) {
            Ok::<Seq<char>, GVMError>(netplan_stanza(net@, nic@))
        } else {
            Err::<Seq<char>, GVMError>(GVMError::InvalidDescriptor)
        },
{
    let gateway = match parse_gateway(net.gateway.as_str()) {
        Ok(gateway) => gateway,
        Err(e) => {
            return Err(e);
        },
    };
    let mut r = String::from_str("    ");
    r.append(nic);
    r.append(":\n");
    r.append("      dhcp4: false\n");
    r.append("      addresses:\n");
    r.append("        - ");
    r.append(net.ip.as_str());
    r.append("/");
    r.append(gateway.prefix.as_str());
    r.append("\n");
    r.append("      gateway4: ");
    r.append(gateway.address.as_str());
    r.append("\n");
    r.append("      nameservers:\n");
    r.append("        addresses: [8.8.8.8]");
    Ok(r)
}

/// Produces the netplan entry for the interface that `net` describes.
///
/// Fails as the search for the interface fails, and with
/// `InvalidDescriptor` where the interface is there but the gateway is not
/// valid.
pub fn netplan_networking(net: &Network, interfaces: &Vec<Interface>) -> (r: Result<
    String,
    GVMError,
>)
    ensures
        text_result(r) == netplan_spec(net@, interfaces.deep_view()),
{
    let nic = match find_mac(&net.mac, interfaces) {
        Ok(nic) => nic,
        Err(e) => {
            return Err(e);
        },
    };
    netplan_entry(net, nic.as_str())
}

/// A file to be written.
#[derive(Debug, Clone, PartialEq, Eq)]
pub struct ConfigFile {
    /// Where it goes.
    pub path: String,
    /// What it holds.
    pub contents: String,
}

/// A [`ConfigFile`] as contracts see it.
pub struct ConfigFileView {
    pub path: Seq<char>,
    pub contents: Seq<char>,
}

impl View for ConfigFile {
    type V = ConfigFileView;

    open spec fn view(&self) -> ConfigFileView {
        ConfigFileView { path: self.path@, contents: self.contents@ }
    }
}

impl DeepView for ConfigFile {
    type V = ConfigFileView;

    open spec fn deep_view(&self) -> ConfigFileView {
        self@
    }
}

/// Whether `c` is a hexadecimal digit in lower case.
pub open spec fn is_lower_hex(c: char) -> bool {
    '0' <= c <= '9' || 'a' <= c <= 'f'
}

/// Whether `s` has the shape of a random UUID in its usual notation: 36
/// characters, hyphens after the 8th, 12th, 16th and 20th of 32 lower-case
/// hexadecimal digits, the version digit 4 and a variant digit of 8 to b.
pub open spec fn is_uuid_text(s: Seq<char>) -> bool {
    &&& s.len() == 36
    &&& forall|i: int|
        0 <= i < 36 ==> if i == 8 || i == 13 || i == 18 || i == 23 {
            #[trigger] s[i] == '-'
        } else {
            is_lower_hex(s[i])
        }
    &&& s[14] == '4'
    &&& (s[19] == '8' || s[19] == '9' || s[19] == 'a' || s[19] == 'b')
}

/// Draws a fresh identifier for an interface record.
///
/// This is `uuid::Uuid::new_v4`, rendered by the `Display` of `Uuid`. The
/// contract says nothing of which identifier comes back, only that it is
/// written as that crate writes a version 4 UUID: hyphenated, in lower
/// case. The call panics if the system gives no random bytes.
#[verifier::external_body]
fn new_uuid() -> (text: String)
    ensures
        is_uuid_text(text@),
{
    uuid::Uuid::new_v4().to_string()
}

/// Where the interface script of `nic` goes.
pub open spec fn ifcfg_path(nic: Seq<char>) -> Seq<char> {
    "/etc/sysconfig/network-scripts/"@ + "ifcfg-"@ + nic
}

/// The interface script for `net`, applied to the interface `nic` under
/// the identifier `uuid`: one `KEY=value` setting per line.
pub open spec fn ifcfg_contents(net: NetworkView, nic: Seq<char>, uuid: Seq<char>) -> Seq<char> {
    "HWADDR="@ + net.mac + "\n"@ + "TYPE=Ethernet\n"@ + "BOOTPROTO=none\n"@ + "DEFROUTE=yes\n"@
        + "NETMASK="@ + netmask_text(gateway_length(net.gateway) as u32) + "\n"@ + "GATEWAY="@
        + gateway_address(net.gateway) + "\n"@ + "DNS1=8.8.8.8\n"@ + "DNS2=8.8.4.4\n"@
        + "IPADDR="@ + net.ip + "\n"@ + "IPV4_FAILURE_FATAL=no\n"@ + "NAME="@ + nic + "\n"@
        + "UUID="@ + uuid + "\n"@ + "DEVICE="@ + nic + "\n"@ + "ONBOOT=yes\n"@ + "IPV6INIT=no"@
}

/// The interface script for `net` as a file.
pub open spec fn ifcfg_file(net: NetworkView, nic: Seq<char>, uuid: Seq<char>) -> ConfigFileView {
    ConfigFileView { path: ifcfg_path(nic), contents: ifcfg_contents(net, nic, uuid) }
}

/// A `Result` that carries a file, with the file seen as its view.
pub open spec fn file_result(r: Result<ConfigFile, GVMError>) -> Result<ConfigFileView, GVMError> {
    match r {
        Ok(file) => Ok(file@),
        Err(e) => Err(e),
    }
}

/// Writes the interface script for `net`, applied to the interface `nic`
/// under the identifier `uuid`.
///
/// Fails with `InvalidDescriptor` where the gateway is not valid.
pub fn ifcfg_record(net: &Network, nic: &str, uuid: &str) -> (r: Result<ConfigFile, GVMError>)
    ensures
        file_result(r) == if gateway_valid(net.gateway@) {
            Ok::<ConfigFileView, GVMError>(ifcfg_file(net@, nic@, uuid@))
        } else {
            Err::<ConfigFileView, GVMError>(GVMError::InvalidDescriptor)
        },
{
    let gateway = match parse_gateway(net.gateway.as_str()) {
        Ok(gateway) => gateway,
        Err(e) => {
            return Err(e);
        },
    };
    let mask = match netmask(gateway.length) {
        Ok(mask) => mask,
        Err(e) => {
            return Err(e);
        },
    };
    let mut path = String::from_str("/etc/sysconfig/network-scripts/");
    path.append("ifcfg-");
    path.append(nic);
    let mut contents = String::from_str("HWADDR=");
    contents.append(net.mac.as_str());
    contents.append("\n");
    contents.append("TYPE=Ethernet\n");
    contents.append("BOOTPROTO=none\n");
    contents.append("DEFROUTE=yes\n");
    contents.append("NETMASK=");
    contents.append(mask.as_str());
    contents.append("\n");
    contents.append("GATEWAY=");
    contents.append(gateway.address.as_str());
    contents.append("\n");
    contents.append("DNS1=8.8.8.8\n");
    contents.append("DNS2=8.8.4.4\n");
    contents.append("IPADDR=");
    contents.append(net.ip.as_str());
    contents.append("\n");
    contents.append("IPV4_FAILURE_FATAL=no\n");
    contents.append("NAME=");
    contents.append(nic);
    contents.append("\n");
    contents.append("UUID=");
    contents.append(uuid);
    contents.append("\n");
    contents.append("DEVICE=");
    contents.append(nic);
    contents.append("\n");
    contents.append("ONBOOT=yes\n");
    contents.append("IPV6INIT=no");
    Ok(ConfigFile { path, contents })
}

/// Produces the interface script for the interface that `net` describes,
/// under a fresh identifier.
///
/// Fails as the search for the interface fails, and with
/// `InvalidDescriptor` where the interface is there but the gateway is not
/// valid.
pub fn systemd_networking(net: &Network, interfaces: &Vec<Interface>) -> (r: Result<
    ConfigFile,
    GVMError,
>)
    ensures
        match r {
            Ok(file) => descriptor_error(net@, interfaces.deep_view()) is None && exists|
                uuid: Seq<char>,
            |
                is_uuid_text(uuid) && file@ == #[trigger] ifcfg_file(
                    net@,
                    descriptor_nic(net@, interfaces.deep_view()),
                    uuid,
                ),
            Err(e) => descriptor_error(net@, interfaces.deep_view()) == Some(e),
        },
{
    let nic = match find_mac(&net.mac, interfaces) {
        Ok(nic) => nic,
        Err(e) => {
            return Err(e);
        },
    };
    let uuid = new_uuid();
    let r = ifcfg_record(net, nic.as_str(), uuid.as_str());
    proof {
        if r is Ok {
            assert(r->Ok_0@ == ifcfg_file(
                net@,
                descriptor_nic(net@, interfaces.deep_view()),
                uuid@,
            ));
        }
    }
    r
}

/// A program to run, with its arguments.
#[derive(Debug, Clone, PartialEq, Eq)]
pub struct SystemCommand {
    /// The program's path.
    pub program: String,
    /// Its arguments, in order.
    pub args: Vec<String>,
}

/// A [`SystemCommand`] as contracts see it.
pub struct SystemCommandView {
    pub program: Seq<char>,
    pub args: Seq<Seq<char>>,
}

impl View for SystemCommand {
    type V = SystemCommandView;

    open spec fn view(&self) -> SystemCommandView {
        SystemCommandView { program: self.program@, args: self.args.deep_view() }
    }
}

/// What provisioning comes to: the files to write, in this order, the
/// command to run after them, and whether every descriptor could be
/// applied.
#[derive(Debug, PartialEq, Eq)]
pub struct Provision {
    /// The files to write, first to last.
    pub files: Vec<ConfigFile>,
    /// The command that makes the system take up the new configuration.
    pub command: Option<SystemCommand>,
    /// `Ok`, or the failure of the first descriptor that could not be
    /// applied.
    pub result: Result<(), GVMError>,
}

/// A [`Provision`] as contracts see it.
pub struct ProvisionView {
    pub files: Seq<ConfigFileView>,
    pub command: Option<SystemCommandView>,
    pub result: Result<(), GVMError>,
}

impl View for Provision {
    type V = ProvisionView;

    open spec fn view(&self) -> ProvisionView {
        ProvisionView {
            files: self.files.deep_view(),
            command: match self.command {
                Some(c) => Some(c@),
                None => None,
            },
            result: self.result,
        }
    }
}

/// The file that holds the netplan document.
pub const NETPLAN_CONFIG: &'static str = "/etc/netplan/00-installer-config.yaml";

/// The command that applies the netplan document.
pub open spec fn netplan_apply() -> SystemCommandView {
    SystemCommandView { program: "/bin/sudo"@, args: seq!["netplan"@, "apply"@] }
}

/// The command that restarts the sysconfig network service.
pub open spec fn network_restart() -> SystemCommandView {
    SystemCommandView { program: "/bin/sudo"@, args: seq!["systemctl"@, "restart"@, "network"@] }
}

/// How many descriptors, from the first on, can be applied before one
/// fails.
pub open spec fn applicable(nets: Seq<NetworkView>, interfaces: Seq<InterfaceView>) -> nat
    decreases nets.len(),
{
    if nets.len() == 0 || descriptor_error(nets[0], interfaces) is Some {
        0
    } else {
        1 + applicable(nets.drop_first(), interfaces)
    }
}

/// Every descriptor before `applicable` can be applied, and the one at
/// `applicable`, if there is one, cannot.
pub proof fn lemma_applicable(nets: Seq<NetworkView>, interfaces: Seq<InterfaceView>)
    ensures
        applicable(nets, interfaces) <= nets.len(),
        forall|j: int|
            0 <= j < applicable(nets, interfaces) ==> descriptor_error(
                #[trigger] nets[j],
                interfaces,
            ) is None,
        applicable(nets, interfaces) < nets.len() ==> descriptor_error(
            nets[applicable(nets, interfaces) as int],
            interfaces,
        ) is Some,
    decreases nets.len(),
{
    if nets.len() > 0 && descriptor_error(nets[0], interfaces) is None {
        let rest = nets.drop_first();
        lemma_applicable(rest, interfaces);
        assert forall|j: int| 0 <= j < applicable(nets, interfaces) implies descriptor_error(
            #[trigger] nets[j],
            interfaces,
        ) is None by {
            if j > 0 {
                assert(nets[j] == rest[j - 1]);
            }
        }
        if applicable(nets, interfaces) < nets.len() {
            assert(nets[applicable(nets, interfaces) as int] == rest[applicable(rest, interfaces) as int]);
        }
    }
}

/// A count with the properties of `applicable` is `applicable`.
pub proof fn lemma_applicable_is(
    nets: Seq<NetworkView>,
    interfaces: Seq<InterfaceView>,
    count: int,
)
    requires
        0 <= count <= nets.len(),
        forall|j: int| 0 <= j < count ==> descriptor_error(#[trigger] nets[j], interfaces) is None,
        count < nets.len() ==> descriptor_error(nets[count], interfaces) is Some,
    ensures
        applicable(nets, interfaces) == count,
    decreases nets.len(),
{
    if count > 0 {
        let rest = nets.drop_first();
        assert(descriptor_error(nets[0], interfaces) is None);
        assert forall|j: int| 0 <= j < count - 1 implies descriptor_error(
            #[trigger] rest[j],
            interfaces,
        ) is None by {
            assert(rest[j] == nets[j + 1]);
        }
        lemma_applicable_is(rest, interfaces, count - 1);
    }
}

/// The netplan document down to the entry of the descriptor before
/// `upto`: the heading, then each interface's entry on a new line.
pub open spec fn netplan_body(
    nets: Seq<NetworkView>,
    interfaces: Seq<InterfaceView>,
    upto: int,
) -> Seq<char>
    decreases upto,
{
    if upto <= 0 {
        "network:\n  ethernets:"@
    } else {
        netplan_body(nets, interfaces, upto - 1) + "\n"@ + netplan_stanza(
            nets[upto - 1],
            descriptor_nic(nets[upto - 1], interfaces),
        )
    }
}

/// The whole netplan document for `nets`.
pub open spec fn netplan_document(nets: Seq<NetworkView>, interfaces: Seq<InterfaceView>) -> Seq<
    char,
> {
    netplan_body(nets, interfaces, nets.len() as int) + "\n"@ + "  version: 2\n"@
}

/// What provisioning comes to on the netplan backend: nothing for an
/// empty list; the failure of the first descriptor that cannot be applied,
/// and then no file and no command; else the one document and the command
/// that applies it.
pub open spec fn netplan_plan(
    nets: Seq<NetworkView>,
    interfaces: Seq<InterfaceView>,
) -> ProvisionView {
    let count = applicable(nets, interfaces) as int;
    if count < nets.len() {
        ProvisionView {
            files: Seq::empty(),
            command: None,
            result: Err(descriptor_error(nets[count], interfaces)->Some_0),
        }
    } else if nets.len() == 0 {
        ProvisionView { files: Seq::empty(), command: None, result: Ok(()) }
    } else {
        ProvisionView {
            files: seq![
                ConfigFileView {
                    path: NETPLAN_CONFIG@,
                    contents: netplan_document(nets, interfaces),
                },
            ],
            command: Some(netplan_apply()),
            result: Ok(()),
        }
    }
}

/// What provisioning comes to on the sysconfig backend, where the record
/// of descriptor `i` gets the identifier `ids[i]`: one interface script
/// for each descriptor before the first that cannot be applied, in the
/// order of the list; that descriptor's failure, if there is one; and the
/// restart command only where a list that is not empty went through.
pub open spec fn systemd_plan(
    nets: Seq<NetworkView>,
    interfaces: Seq<InterfaceView>,
    ids: Seq<Seq<char>>,
) -> ProvisionView {
    let count = applicable(nets, interfaces) as int;
    ProvisionView {
        files: Seq::new(
            count as nat,
            |i: int| ifcfg_file(nets[i], descriptor_nic(nets[i], interfaces), ids[i]),
        ),
        command: if count == nets.len() && nets.len() > 0 {
            Some(network_restart())
        } else {
            None
        },
        result: if count < nets.len() {
            Err(descriptor_error(nets[count], interfaces)->Some_0)
        } else {
            Ok(())
        },
    }
}

/// Builds the command that applies the netplan document.
fn netplan_apply_command() -> (c: SystemCommand)
    ensures
        c@ == netplan_apply(),
{
    let mut args: Vec<String> = Vec::new();
    args.push(String::from_str("netplan"));
    args.push(String::from_str("apply"));
    assert(args.deep_view() =~= seq!["netplan"@, "apply"@]);
    SystemCommand { program: String::from_str("/bin/sudo"), args }
}

/// Builds the command that restarts the sysconfig network service.
fn network_restart_command() -> (c: SystemCommand)
    ensures
        c@ == network_restart(),
{
    let mut args: Vec<String> = Vec::new();
    args.push(String::from_str("systemctl"));
    args.push(String::from_str("restart"));
    args.push(String::from_str("network"));
    assert(args.deep_view() =~= seq!["systemctl"@, "restart"@, "network"@]);
    SystemCommand { program: String::from_str("/bin/sudo"), args }
}

/// Works out the configuration for the interfaces that `nets` describes.
///
/// `netplan` selects the backend for the whole list; `interfaces` is the
/// guest's interface listing. Descriptors are taken in order and the first
/// that cannot be applied ends the work. On the netplan backend a failure
/// leaves nothing to write. On the sysconfig backend each descriptor gets
/// a script of its own, under a fresh identifier, and the scripts of the
/// descriptors before a failure stay in the result. An empty list leaves
/// nothing to write and nothing to run.
pub fn init_net(nets: &Vec<Network>, netplan: bool, interfaces: &Vec<Interface>) -> (plan:
    Provision)
    ensures
        netplan ==> plan@ == netplan_plan(nets.deep_view(), interfaces.deep_view()),
        !netplan ==> exists|ids: Seq<Seq<char>>|
            {
                &&& ids.len() == plan.files.len()
                &&& forall|i: int| 0 <= i < ids.len() ==> is_uuid_text(#[trigger] ids[i])
                &&& plan@ == #[trigger] systemd_plan(
                    nets.deep_view(),
                    interfaces.deep_view(),
                    ids,
                )
            },
{
    let ghost all = nets.deep_view();
    let ghost listing = interfaces.deep_view();
    let ghost mut ids: Seq<Seq<char>> = Seq::empty();
    let mut contents = String::from_str("network:\n  ethernets:");
    let mut files: Vec<ConfigFile> = Vec::new();
    let mut i: usize = 0;
    while i < nets.len()
        invariant
            i <= nets.len(),
            all == nets.deep_view(),
            listing == interfaces.deep_view(),
            forall|j: int| 0 <= j < i ==> descriptor_error(#[trigger] all[j], listing) is None,
            netplan ==> contents@ == netplan_body(all, listing, i as int) && files@.len() == 0,
            !netplan ==> ids.len() == i && files@.len() == i,
            forall|j: int| 0 <= j < ids.len() ==> is_uuid_text(#[trigger] ids[j]),
            !netplan ==> forall|j: int|
                0 <= j < i ==> (#[trigger] files@[j])@ == ifcfg_file(
                    all[j],
                    descriptor_nic(all[j], listing),
                    ids[j],
                ),
        decreases nets.len() - i,
    {
        assert(all[i as int] == nets[i as int]@);
        if netplan {
            match netplan_networking(&nets[i], interfaces) {
                Ok(stanza) => {
                    contents.append("\n");
                    contents.append(stanza.as_str());
                },
                Err(e) => {
                    proof {
                        lemma_applicable_is(all, listing, i as int);
                    }
                    let plan = Provision { files, command: None, result: Err(e) };
                    assert(plan@.files =~= Seq::empty());
                    return plan;
                },
            }
        } else {
            match systemd_networking(&nets[i], interfaces) {
                Ok(file) => {
                    proof {
                        let nic = descriptor_nic(all[i as int], listing);
                        let uuid = choose|uuid: Seq<char>|
                            is_uuid_text(uuid) && file@ == #[trigger] ifcfg_file(
                                all[i as int],
                                nic,
                                uuid,
                            );
                        ids = ids.push(uuid);
                    }
                    files.push(file);
                },
                Err(e) => {
                    proof {
                        lemma_applicable_is(all, listing, i as int);
                    }
                    let plan = Provision { files, command: None, result: Err(e) };
                    assert(plan@.files =~= systemd_plan(all, listing, ids).files);
                    return plan;
                },
            }
        }
        i = i + 1;
    }
    proof {
        lemma_applicable_is(all, listing, nets.len() as int);
    }
    if nets.len() == 0 {
        let plan = Provision { files, command: None, result: Ok(()) };
        assert(plan@.files =~= Seq::empty());
        assert(plan@.files =~= systemd_plan(all, listing, ids).files);
        plan
    } else if netplan {
        contents.append("\n");
        contents.append("  version: 2\n");
        files.push(ConfigFile { path: String::from_str(NETPLAN_CONFIG), contents });
        let plan = Provision {
            files,
            command: Some(netplan_apply_command()),
            result: Ok(()),
        };
        assert(plan@.files =~= netplan_plan(all, listing).files);
        plan
    } else {
        let plan = Provision {
            files,
            command: Some(network_restart_command()),
            result: Ok(()),
        };
        assert(plan@.files =~= systemd_plan(all, listing, ids).files);
        plan
    }
}

/// What the file at `path` holds once `files` have been written in order:
/// the contents of the last of them that goes there, if any does.
pub open spec fn written(files: Seq<ConfigFileView>, path: Seq<char>) -> Option<Seq<char>>
    decreases files.len(),
{
    if files.len() == 0 {
        None
    } else if files.last().path == path {
        Some(files.last().contents)
    } else {
        written(files.drop_last(), path)
    }
}

/// On the netplan backend a failure leaves no file to write and no command
/// to run, whichever descriptor it comes from.
pub proof fn lemma_netplan_failure_writes_nothing(
    nets: Seq<NetworkView>,
    interfaces: Seq<InterfaceView>,
)
    ensures
        netplan_plan(nets, interfaces).result is Err ==> netplan_plan(nets, interfaces).files.len()
            == 0 && netplan_plan(nets, interfaces).command is None,
        netplan_plan(nets, interfaces).result is Err <==> applicable(nets, interfaces)
            < nets.len(),
{
    lemma_applicable(nets, interfaces);
}

/// On the sysconfig backend the files are the scripts of the descriptors
/// before the first failure, one each and in the order of the list; a
/// failure leaves those scripts in place and no command to run.
pub proof fn lemma_systemd_writes_in_order(
    nets: Seq<NetworkView>,
    interfaces: Seq<InterfaceView>,
    ids: Seq<Seq<char>>,
)
    ensures
        systemd_plan(nets, interfaces, ids).files.len() == applicable(nets, interfaces),
        applicable(nets, interfaces) <= nets.len(),
        forall|i: int|
            0 <= i < applicable(nets, interfaces) ==> #[trigger] systemd_plan(
                nets,
                interfaces,
                ids,
            ).files[i] == ifcfg_file(nets[i], descriptor_nic(nets[i], interfaces), ids[i]),
        systemd_plan(nets, interfaces, ids).result is Err <==> applicable(nets, interfaces)
            < nets.len(),
        systemd_plan(nets, interfaces, ids).result is Err ==> systemd_plan(
            nets,
            interfaces,
            ids,
        ).command is None,
{
    lemma_applicable(nets, interfaces);
}

/// Where no interface carries the hardware address of any descriptor,
/// provisioning a list that is not empty fails with `NicNotFound` and
/// leaves nothing to write or run, on either backend.
pub proof fn lemma_no_match_writes_nothing(
    nets: Seq<NetworkView>,
    interfaces: Seq<InterfaceView>,
    ids: Seq<Seq<char>>,
)
    requires
        nets.len() > 0,
        forall|i: int| 0 <= i < nets.len() ==> no_interface_has((#[trigger] nets[i]).mac, interfaces),
    ensures
        netplan_plan(nets, interfaces) == (ProvisionView {
            files: Seq::empty(),
            command: None,
            result: Err(GVMError::NicNotFound),
        }),
        systemd_plan(nets, interfaces, ids) == (ProvisionView {
            files: Seq::empty(),
            command: None,
            result: Err(GVMError::NicNotFound),
        }),
{
    assert(no_interface_has(nets[0].mac, interfaces));
    lemma_find_mac_none(nets[0].mac, interfaces);
    assert(systemd_plan(nets, interfaces, ids).files =~= Seq::empty());
}

/// Two descriptors with the same hardware address, both of which can be
/// applied, are for the same interface. On the sysconfig backend each is
/// written to that interface's script, the first before the second, so
/// that the script ends up holding the second's configuration.
pub proof fn lemma_same_mac_systemd(
    first: NetworkView,
    second: NetworkView,
    interfaces: Seq<InterfaceView>,
    ids: Seq<Seq<char>>,
)
    requires
        first.mac == second.mac,
        descriptor_error(first, interfaces) is None,
        descriptor_error(second, interfaces) is None,
    ensures
        descriptor_nic(first, interfaces) == descriptor_nic(second, interfaces),
        ({
            let nic = descriptor_nic(first, interfaces);
            let plan = systemd_plan(seq![first, second], interfaces, ids);
            &&& plan.result is Ok
            &&& plan.files == seq![ifcfg_file(first, nic, ids[0]), ifcfg_file(second, nic, ids[1])]
            &&& plan.files[0].path == plan.files[1].path
            &&& written(plan.files, ifcfg_path(nic)) == Some(ifcfg_contents(second, nic, ids[1]))
        }),
{
    let nets = seq![first, second];
    lemma_applicable_is(nets, interfaces, 2);
    let nic = descriptor_nic(first, interfaces);
    assert(systemd_plan(nets, interfaces, ids).files =~= seq![
        ifcfg_file(first, nic, ids[0]),
        ifcfg_file(second, nic, ids[1]),
    ]);
}

/// On the netplan backend two descriptors with the same hardware address,
/// both of which can be applied, each get an entry in the one document,
/// the first before the second.
pub proof fn lemma_same_mac_netplan(
    first: NetworkView,
    second: NetworkView,
    interfaces: Seq<InterfaceView>,
)
    requires
        first.mac == second.mac,
        descriptor_error(first, interfaces) is None,
        descriptor_error(second, interfaces) is None,
    ensures
        ({
            let nic = descriptor_nic(first, interfaces);
            netplan_plan(seq![first, second], interfaces) == (ProvisionView {
                files: seq![
                    ConfigFileView {
                        path: NETPLAN_CONFIG@,
                        contents: "network:\n  ethernets:"@ + "\n"@ + netplan_stanza(first, nic)
                            + "\n"@ + netplan_stanza(second, nic) + "\n"@ + "  version: 2\n"@,
                    },
                ],
                command: Some(netplan_apply()),
                result: Ok(()),
            })
        }),
{
    let nets = seq![first, second];
    lemma_applicable_is(nets, interfaces, 2);
    reveal_with_fuel(netplan_body, 3);
}

} // verus!
