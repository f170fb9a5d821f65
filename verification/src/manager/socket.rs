//! What the settings of a `.socket` unit listen on.

use vstd::prelude::*;

use crate::text::{
    after_prefix, begins, cat2, cat3, decimal, decimal_reads_back, number, owned, parse_number,
    same, starts_with_char, strip_prefix, Text,
};

verus! {

/// What is to be bound.
#[derive(Debug, Clone, PartialEq, Eq)]
pub enum Listen {
    /// A Unix socket at a path.
    Unix(String),
    /// A TCP port on all addresses.
    Port(u16),
    /// A TCP address, still to be read.
    Address(String),
    /// A netlink socket of a family.
    Netlink(u32),
}

/// What is to be bound, as specifications see it.
pub ghost enum Endpoint {
    Unix(Text),
    Port(nat),
    Address(Text),
    Netlink(int),
}

impl View for Listen {
    type V = Endpoint;

    open spec fn view(&self) -> Endpoint {
        match self {
            Listen::Unix(p) => Endpoint::Unix(p@),
            Listen::Port(n) => Endpoint::Port(*n as nat),
            Listen::Address(a) => Endpoint::Address(a@),
            Listen::Netlink(n) => Endpoint::Netlink(*n as int),
        }
    }
}

/// The result, as specifications see it.
pub open spec fn listen_result(r: Result<Listen, String>) -> Result<Endpoint, Text> {
    match r {
        Ok(l) => Ok(l@),
        Err(e) => Err(e@),
    }
}

/// The path of a Unix socket, where the setting names one.
pub open spec fn unix_path(s: Text) -> Option<Text> {
    match after_prefix(s, "unix:"@) {
        Some(p) => Some(p),
        None => if s.len() > 0 && s[0] == '/' {
            Some(s)
        } else {
            None
        },
    }
}

pub open spec fn no_abstract(s: Text) -> Text {
    "abstract unix sockets not supported: "@ + s
}

/// What `ListenStream=` binds: a Unix socket, a TCP port or a TCP address.
pub open spec fn stream_endpoint(s: Text) -> Result<Endpoint, Text> {
    match unix_path(s) {
        Some(p) => Ok(Endpoint::Unix(p)),
        None => if s.len() > 0 && s[0] == '@' {
            Err(no_abstract(s))
        } else {
            match number(s, 10, u16::MAX as nat) {
                Some(n) => Ok(Endpoint::Port(n)),
                None => Ok(Endpoint::Address(s)),
            }
        },
    }
}

/// What a setting binds that knows Unix sockets alone.
pub open spec fn unix_endpoint(s: Text, refusal: Text) -> Result<Endpoint, Text> {
    match unix_path(s) {
        Some(p) => Ok(Endpoint::Unix(p)),
        None => if s.len() > 0 && s[0] == '@' {
            Err(no_abstract(s))
        } else {
            Err(refusal + s)
        },
    }
}

fn path_of(s: &str) -> (r: Option<String>)
    ensures
        crate::text::opt_text(r) == unix_path(s@),
{
    match strip_prefix(s, "unix:") {
        Some(p) => Some(owned(p)),
        None => if starts_with_char(s, '/') {
            Some(owned(s))
        } else {
            None
        },
    }
}

fn unix_only(s: &str, refusal: &str) -> (r: Result<Listen, String>)
    ensures
        listen_result(r) == unix_endpoint(s@, refusal@),
{
    match path_of(s) {
        Some(p) => Ok(Listen::Unix(p)),
        None => if starts_with_char(s, '@') {
            Err(cat2("abstract unix sockets not supported: ", s))
        } else {
            Err(cat2(refusal, s))
        },
    }
}

/// What `ListenStream=` binds: a Unix socket, a TCP port or a TCP address.
pub fn bind_listen_stream(s: &str) -> (r: Result<Listen, String>)
    ensures
        listen_result(r) == stream_endpoint(s@),
{
    match path_of(s) {
        Some(p) => Ok(Listen::Unix(p)),
        None => if starts_with_char(s, '@') {
            Err(cat2("abstract unix sockets not supported: ", s))
        } else {
            match parse_number(s, 10, u16::MAX as u64) {
                Some(n) => Ok(Listen::Port(n as u16)),
                None => Ok(Listen::Address(owned(s))),
            }
        },
    }
}

/// What `ListenDatagram=` binds: a Unix socket.
pub fn bind_listen_datagram(s: &str) -> (r: Result<Listen, String>)
    ensures
        listen_result(r) == unix_endpoint(s@, "only unix: datagram sockets are supported: "@),
{
    unix_only(s, "only unix: datagram sockets are supported: ")
}

/// What `ListenSequentialPacket=` binds: a Unix socket.
pub fn bind_listen_sequential_packet(s: &str) -> (r: Result<Listen, String>)
    ensures
        listen_result(r) == unix_endpoint(
            s@,
            "only unix: sequential-packet sockets are supported: "@,
        ),
{
    unix_only(s, "only unix: sequential-packet sockets are supported: ")
}

/// The number of a netlink family, as `<linux/netlink.h>` gives it.
pub open spec fn family_number(name: Text) -> Option<u32> {
    if name == "route"@ {
        Some(0u32)
    } else if name == "sock-diag"@ {
        Some(4u32)
    } else if name == "nflog"@ {
        Some(5u32)
    } else if name == "xfrm"@ {
        Some(6u32)
    } else if name == "selinux"@ {
        Some(7u32)
    } else if name == "audit"@ {
        Some(9u32)
    } else if name == "nfnetlink"@ {
        Some(12u32)
    } else if name == "kobject-uevent"@ {
        Some(15u32)
    } else {
        None
    }
}

/// The number of a netlink family.
pub fn netlink_family(name: &str) -> (r: Option<u32>)
    ensures
        r == family_number(name@),
{
    if same(name, "route") {
        Some(0)
    } else if same(name, "sock-diag") {
        Some(4)
    } else if same(name, "nflog") {
        Some(5)
    } else if same(name, "xfrm") {
        Some(6)
    } else if same(name, "selinux") {
        Some(7)
    } else if same(name, "audit") {
        Some(9)
    } else if same(name, "nfnetlink") {
        Some(12)
    } else if same(name, "kobject-uevent") {
        Some(15)
    } else {
        None
    }
}

/// What `ListenNetlink=` binds: a netlink socket of the family that it names.
pub fn bind_listen_netlink(s: &str) -> (r: Result<Listen, String>)
    ensures
        listen_result(r) == (match family_number(s@) {
            Some(n) => Ok::<Endpoint, Text>(Endpoint::Netlink(n as int)),
            None => Err("unknown netlink family `"@ + s@ + "`"@),
        }),
{
    match netlink_family(s) {
        Some(n) => Ok(Listen::Netlink(n)),
        None => Err(cat3("unknown netlink family `", s, "`")),
    }
}

/// The netlink families and their numbers.
pub proof fn netlink_families_have_these_numbers(name: Text)
    ensures
        family_number(name) == Some(0u32) <==> name == "route"@,
        family_number(name) == Some(4u32) <==> name == "sock-diag"@,
        family_number(name) == Some(5u32) <==> name == "nflog"@,
        family_number(name) == Some(6u32) <==> name == "xfrm"@,
        family_number(name) == Some(7u32) <==> name == "selinux"@,
        family_number(name) == Some(9u32) <==> name == "audit"@,
        family_number(name) == Some(12u32) <==> name == "nfnetlink"@,
        family_number(name) == Some(15u32) <==> name == "kobject-uevent"@,
{
    reveal_strlit("route");
    reveal_strlit("sock-diag");
    reveal_strlit("nflog");
    reveal_strlit("xfrm");
    reveal_strlit("selinux");
    reveal_strlit("audit");
    reveal_strlit("nfnetlink");
    reveal_strlit("kobject-uevent");
    assert("route"@.len() == 5 && "route"@[0] == 'r' && "route"@[1] == 'o' && "route"@[2] == 'u');
    assert("sock-diag"@.len() == 9 && "sock-diag"@[0] == 's' && "sock-diag"@[1] == 'o' && "sock-diag"@[2] == 'c');
    assert("nflog"@.len() == 5 && "nflog"@[0] == 'n' && "nflog"@[1] == 'f' && "nflog"@[2] == 'l');
    assert("xfrm"@.len() == 4 && "xfrm"@[0] == 'x' && "xfrm"@[1] == 'f' && "xfrm"@[2] == 'r');
    assert("selinux"@.len() == 7 && "selinux"@[0] == 's' && "selinux"@[1] == 'e' && "selinux"@[2] == 'l');
    assert("audit"@.len() == 5 && "audit"@[0] == 'a' && "audit"@[1] == 'u' && "audit"@[2] == 'd');
    assert("nfnetlink"@.len() == 9 && "nfnetlink"@[0] == 'n' && "nfnetlink"@[1] == 'f' && "nfnetlink"@[2] == 'n');
    assert("kobject-uevent"@.len() == 14 && "kobject-uevent"@[0] == 'k' && "kobject-uevent"@[1] == 'o' && "kobject-uevent"@[2] == 'b');
}

/// A stream socket listens on a path, which is absolute or stands behind `unix:`; on a
/// port, which is a number; or on an address. Sockets in the abstract namespace are
/// refused.
pub proof fn streams_listen_on_what_is_written(p: Text, n: nat)
    ensures
        stream_endpoint("unix:"@ + p) == Ok::<Endpoint, Text>(Endpoint::Unix(p)),
        stream_endpoint(seq!['/'] + p) == Ok::<Endpoint, Text>(Endpoint::Unix(seq!['/'] + p)),
        n <= 65535 ==> stream_endpoint(decimal(n)) == Ok::<Endpoint, Text>(Endpoint::Port(n)),
        stream_endpoint(seq!['@'] + p) is Err,
{
    listening_paths(p);
    decimal_reads_back(n);
    let d = decimal(n);
    reveal_strlit("unix:");
    if begins(d, "unix:"@) {
        assert(d.take(5)[0] == d[0]);
        assert("unix:"@[0] == 'u');
    }
}

proof fn listening_paths(p: Text)
    ensures
        unix_path("unix:"@ + p) == Some(p),
        unix_path(seq!['/'] + p) == Some(seq!['/'] + p),
        unix_path(seq!['@'] + p) is None,
{
    reveal_strlit("unix:");
    assert("unix:"@ =~= seq!['u', 'n', 'i', 'x', ':']);
    let a = "unix:"@ + p;
    assert(a.take(5) =~= "unix:"@);
    assert(a.skip(5) =~= p);
    let b = seq!['/'] + p;
    let c = seq!['@'] + p;
    if begins(b, "unix:"@) {
        assert(b.take(5)[0] == b[0]);
    }
    if begins(c, "unix:"@) {
        assert(c.take(5)[0] == c[0]);
    }
}

/// The other sockets listen on paths alone.
pub proof fn other_sockets_listen_on_paths(p: Text, refusal: Text)
    ensures
        unix_endpoint("unix:"@ + p, refusal) == Ok::<Endpoint, Text>(Endpoint::Unix(p)),
        unix_endpoint(seq!['/'] + p, refusal) == Ok::<Endpoint, Text>(
            Endpoint::Unix(seq!['/'] + p),
        ),
        unix_endpoint(seq!['@'] + p, refusal) is Err,
{
    listening_paths(p);
}

/// What is listened on is seen as it is.
pub proof fn endpoints_are_what_they_hold(p: String, n: u16, f: u32)
    ensures
        Listen::Unix(p)@ == Endpoint::Unix(p@),
        Listen::Port(n)@ == Endpoint::Port(n as nat),
        Listen::Address(p)@ == Endpoint::Address(p@),
        Listen::Netlink(f)@ == Endpoint::Netlink(f as int),
{
}

/// An address that is refused is named in the error.
pub proof fn refused_addresses_are_named(s: Text, refusal: Text)
    ensures
        stream_endpoint(s) is Err ==> stream_endpoint(s) == Err::<Endpoint, Text>(
            "abstract unix sockets not supported: "@ + s,
        ),
        unix_endpoint(s, refusal) is Err && s.len() > 0 && s[0] == '@' ==> unix_endpoint(s, refusal)
            == Err::<Endpoint, Text>("abstract unix sockets not supported: "@ + s),
        unix_endpoint(s, refusal) is Err && !(s.len() > 0 && s[0] == '@') ==> unix_endpoint(
            s,
            refusal,
        ) == Err::<Endpoint, Text>(refusal + s),
{
}

} // verus!
