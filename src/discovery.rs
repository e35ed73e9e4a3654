//! Picks the device's ports out of the ports the system lists.
use vstd::prelude::*;

verus! {

/// USB identifiers of the mining device.
pub const VID: u16 = 1155;

pub const PID: u16 = 22336;

/// How a listed port is attached.
#[derive(Clone, Copy, Debug, PartialEq, Eq, Structural)]
pub enum PortKind {
    Usb { vid: u16, pid: u16 },
    Other,
}

/// One port as the system lists it.
#[derive(Clone, Debug)]
pub struct PortInfo {
    pub port_name: String,
    pub port_type: PortKind,
}

pub open spec fn is_device(p: PortInfo, vid: u16, pid: u16) -> bool {
    p.port_type == (PortKind::Usb { vid, pid })
}

/// The USB ports with exactly these ids, in listing order.
pub open spec fn device_ports(ports: Seq<PortInfo>, vid: u16, pid: u16) -> Seq<PortInfo> {
    ports.filter(|p: PortInfo| is_device(p, vid, pid))
}

/// The names of the device's ports, in listing order.
pub open spec fn device_paths(ports: Seq<PortInfo>, vid: u16, pid: u16) -> Seq<String> {
    device_ports(ports, vid, pid).map_values(|p: PortInfo| p.port_name)
}

/// The paths of the listed ports whose USB vendor and product ids are
/// `vid` and `pid`, in the order listed.
pub fn matching_ports(ports: &[PortInfo], vid: u16, pid: u16) -> (r: Vec<String>)
    ensures
        r@ == device_paths(ports@, vid, pid),
{
    let ghost pred = |p: PortInfo| is_device(p, vid, pid);
    let ghost name = |p: PortInfo| p.port_name;
    let mut out: Vec<String> = Vec::new();
    let mut i: usize = 0;
    while i < ports.len()
        invariant
            i <= ports@.len(),
            pred == (|p: PortInfo| is_device(p, vid, pid)),
            name == (|p: PortInfo| p.port_name),
            out@ == ports@.subrange(0, i as int).filter(pred).map_values(name),
        decreases ports@.len() - i,
    {
        let ghost prefix = ports@.subrange(0, i as int);
        let ghost next = ports@.subrange(0, i + 1);
        proof {
            assert(next.drop_last() =~= prefix);
            reveal(Seq::filter);
        }
        let p = &ports[i];
        let matched = match p.port_type {
            PortKind::Usb { vid: v, pid: d } => v == vid && d == pid,
            PortKind::Other => false,
        };
        if matched {
            out.push(p.port_name.clone());
            assert(out@ =~= next.filter(pred).map_values(name));
        } else {
            assert(out@ =~= next.filter(pred).map_values(name));
        }
        i = i + 1;
    }
    assert(ports@.subrange(0, ports@.len() as int) =~= ports@);
    out
}

proof fn lemma_filter_from(s: Seq<PortInfo>, pred: spec_fn(PortInfo) -> bool, i: int)
    requires
        0 <= i < s.filter(pred).len(),
    ensures
        s.contains(s.filter(pred)[i]),
    decreases s.len(),
{
    reveal(Seq::filter);
    let rest = s.drop_last().filter(pred);
    if i < rest.len() {
        lemma_filter_from(s.drop_last(), pred, i);
        let j = choose|j: int| 0 <= j < s.drop_last().len() && s.drop_last()[j] == rest[i];
        assert(s[j] == s.filter(pred)[i]);
    } else {
        assert(s[s.len() - 1] == s.filter(pred)[i]);
    }
}

/// Discovery keeps no port with other ids, each path it returns is the name
/// of such a port of the list, and an empty list gives no path.
pub proof fn lemma_discovery_filters(ports: Seq<PortInfo>, vid: u16, pid: u16)
    ensures
        device_paths(ports, vid, pid).len() == device_ports(ports, vid, pid).len(),
        forall|i: int|
            0 <= i < device_ports(ports, vid, pid).len() ==> {
                &&& is_device(#[trigger] device_ports(ports, vid, pid)[i], vid, pid)
                &&& ports.contains(device_ports(ports, vid, pid)[i])
                &&& device_paths(ports, vid, pid)[i] == device_ports(ports, vid, pid)[i].port_name
            },
        ports.len() == 0 ==> device_paths(ports, vid, pid).len() == 0,
{
    let pred = |p: PortInfo| is_device(p, vid, pid);
    assert forall|i: int| 0 <= i < device_ports(ports, vid, pid).len() implies {
        &&& is_device(#[trigger] device_ports(ports, vid, pid)[i], vid, pid)
        &&& ports.contains(device_ports(ports, vid, pid)[i])
    } by {
        ports.lemma_filter_pred(pred, i);
        lemma_filter_from(ports, pred, i);
    }
    ports.lemma_filter_len(pred);
}

} // verus!
