//! The records that a snapshot of the runtime is made of, reduced to the
//! plain values that the dashboard reads, and the view of a record as a row
//! of a list: an identity and a display name.

use vstd::prelude::*;
use vstd::string::*;
use crate::text::{decimal, joined, push_decimal};

verus! {

/// One published or exposed port of a container.
#[derive(Debug, Clone)]
pub struct Port {
    pub ip: Option<String>,
    pub private_port: u16,
    pub public_port: Option<u16>,
}

/// One mount of a container.
#[derive(Debug, Clone)]
pub struct Mount {
    pub source: Option<String>,
    pub destination: Option<String>,
}

/// What the runtime reports of one container.
#[derive(Debug, Clone)]
pub struct ContainerSummary {
    pub id: Option<String>,
    pub names: Option<Vec<String>>,
    pub image: Option<String>,
    pub image_id: Option<String>,
    pub command: Option<String>,
    pub state: Option<String>,
    pub status: Option<String>,
    pub ports: Option<Vec<Port>>,
    pub labels: Option<Vec<(String, String)>>,
    pub networks: Option<Vec<String>>,
    pub mounts: Option<Vec<Mount>>,
}

/// A container attached to a network.
#[derive(Debug, Clone)]
pub struct Endpoint {
    pub container_id: String,
    pub name: Option<String>,
}

/// What the runtime reports of one network.
#[derive(Debug, Clone)]
pub struct NetworkSummary {
    pub id: Option<String>,
    pub name: Option<String>,
    pub driver: Option<String>,
    pub scope: Option<String>,
    pub containers: Option<Vec<Endpoint>>,
}

/// A record seen as a row of a list. Rows are told apart by `row_id` and
/// listed in the order of `row_name`.
pub trait Row {
    /// The identity of the row, where the runtime reported one.
    spec fn row_id(&self) -> Option<Seq<char>>;

    /// The name under which the row is shown and sorted.
    spec fn row_name(&self) -> Seq<char>;

    /// The identity of the row.
    fn id(&self) -> (r: Option<&String>)
        ensures
            r is Some <==> self.row_id() is Some,
            r matches Some(s) ==> self.row_id() == Some(s@),
    ;

    /// The display name of the row.
    fn name(&self) -> (r: &str)
        ensures
            r@ == self.row_name(),
    ;
}

/// `s` without the run of `c` that it starts with.
pub open spec fn strip_leading(s: Seq<char>, c: char) -> Seq<char>
    decreases s.len(),
{
    if s.len() > 0 && s[0] == c {
        strip_leading(s.drop_first(), c)
    } else {
        s
    }
}

/// What `strip_leading` returns is a suffix of `s` that does not start with
/// `c`, and everything before it is `c`.
pub proof fn lemma_strip_leading(s: Seq<char>, c: char)
    ensures
        strip_leading(s, c).len() <= s.len(),
        strip_leading(s, c) == s.skip(s.len() - strip_leading(s, c).len()),
        strip_leading(s, c).len() > 0 ==> strip_leading(s, c)[0] != c,
        forall|i: int| 0 <= i < s.len() - strip_leading(s, c).len() ==> s[i] == c,
    decreases s.len(),
{
    if s.len() > 0 && s[0] == c {
        let t = s.drop_first();
        lemma_strip_leading(t, c);
        let r = strip_leading(t, c);
        assert(t.skip(t.len() - r.len()) =~= s.skip(s.len() - r.len()));
        assert forall|i: int| 0 <= i < s.len() - r.len() implies s[i] == c by {
            if i > 0 {
                assert(s[i] == t[i - 1]);
            }
        }
    } else {
        assert(s.skip(0) =~= s);
    }
}

/// The name shown where a container has none.
pub open spec fn unnamed() -> Seq<char> {
    "unnamed"@
}

impl ContainerSummary {
    /// The display name of a container: its first name without the leading
    /// separators, or the placeholder where it has no name.
    pub open spec fn display_name(&self) -> Seq<char> {
        match self.names {
            Some(names) => if names@.len() > 0 {
                strip_leading(names@[0]@, '/')
            } else {
                unnamed()
            },
            None => unnamed(),
        }
    }
}

/// The part of `s` after its leading run of `c`.
pub fn trim_leading(s: &str, c: char) -> (r: &str)
    ensures
        r@ == strip_leading(s@, c),
{
    let n = s.unicode_len();
    let mut k: usize = 0;
    assert(s@.skip(0) =~= s@);
    while k < n && s.get_char(k) == c
        invariant
            k <= n,
            n == s@.len(),
            strip_leading(s@, c) == strip_leading(s@.skip(k as int), c),
        decreases n - k,
    {
        assert(s@.skip(k as int).drop_first() =~= s@.skip(k + 1));
        k = k + 1;
    }
    assert(s@.skip(k as int) =~= s@.subrange(k as int, n as int));
    s.substring_char(k, n)
}

impl Row for ContainerSummary {
    open spec fn row_id(&self) -> Option<Seq<char>> {
        match self.id {
            Some(id) => Some(id@),
            None => None,
        }
    }

    open spec fn row_name(&self) -> Seq<char> {
        self.display_name()
    }

    fn id(&self) -> (r: Option<&String>) {
        self.id.as_ref()
    }

    fn name(&self) -> (r: &str) {
        match &self.names {
            Some(names) => {
                if names.len() > 0 {
                    trim_leading(names[0].as_str(), '/')
                } else {
                    "unnamed"
                }
            },
            None => "unnamed",
        }
    }
}

impl Row for NetworkSummary {
    open spec fn row_id(&self) -> Option<Seq<char>> {
        match self.id {
            Some(id) => Some(id@),
            None => None,
        }
    }

    open spec fn row_name(&self) -> Seq<char> {
        match self.name {
            Some(name) => name@,
            None => Seq::empty(),
        }
    }

    fn id(&self) -> (r: Option<&String>) {
        self.id.as_ref()
    }

    fn name(&self) -> (r: &str) {
        match &self.name {
            Some(name) => name.as_str(),
            None => {
                proof {
                    reveal_strlit("");
                }
                assert(""@ =~= Seq::<char>::empty());
                ""
            },
        }
    }
}

impl Port {
    /// How a port is shown: `public:private` where the port is published on
    /// an address, else the private port alone.
    pub open spec fn text(&self) -> Seq<char> {
        match (self.public_port, self.ip) {
            (Some(public), Some(_)) => decimal(public as nat) + seq![':'] + decimal(
                self.private_port as nat,
            ),
            _ => decimal(self.private_port as nat),
        }
    }
}

/// How each port of a list is shown.
pub open spec fn port_texts(ports: Seq<Port>) -> Seq<Seq<char>> {
    Seq::new(ports.len(), |i: int| ports[i].text())
}

/// What separates two ports in a summary.
pub open spec fn port_separator() -> Seq<char> {
    ", "@
}

impl ContainerSummary {
    /// The summary of the ports of a container: each port as it is shown,
    /// separated by a comma and a space; empty where no ports are reported.
    pub open spec fn ports_text(&self) -> Seq<char> {
        match self.ports {
            Some(ports) => joined(port_texts(ports@), port_separator()),
            None => Seq::empty(),
        }
    }
}

/// The display name of a container.
pub fn container_name(c: &ContainerSummary) -> (r: String)
    ensures
        r@ == c.display_name(),
{
    c.name().to_owned()
}

/// Appends how a port is shown to `out`.
fn push_port(out: &mut String, port: &Port)
    ensures
        final(out)@ == old(out)@ + port.text(),
{
    let ghost before = out@;
    match (port.public_port, &port.ip) {
        (Some(public), Some(_)) => {
            push_decimal(out, public as u64);
            out.append(":");
            push_decimal(out, port.private_port as u64);
            proof {
                reveal_strlit(":");
                assert(":"@ =~= seq![':']);
                assert(out@ =~= before + port.text());
            }
        },
        _ => {
            push_decimal(out, port.private_port as u64);
        },
    }
}

/// The summary of the ports of a container.
pub fn container_ports(c: &ContainerSummary) -> (r: String)
    ensures
        r@ == c.ports_text(),
{
    let mut out = String::new();
    match &c.ports {
        Some(ports) => {
            let mut i: usize = 0;
            assert(port_texts(ports@).take(0) =~= Seq::<Seq<char>>::empty());
            while i < ports.len()
                invariant
                    i <= ports@.len(),
                    out@ == joined(port_texts(ports@).take(i as int), port_separator()),
                decreases ports@.len() - i,
            {
                let ghost done = port_texts(ports@).take(i as int);
                let ghost next = port_texts(ports@).take(i + 1);
                if i > 0 {
                    out.append(", ");
                }
                push_port(&mut out, &ports[i]);
                proof {
                    assert(next.drop_last() =~= done);
                    assert(next.last() == ports@[i as int].text());
                    if i == 0 {
                        assert(out@ =~= next[0]);
                    } else {
                        assert(out@ =~= joined(done, port_separator()) + port_separator()
                            + next.last());
                    }
                }
                i = i + 1;
            }
            assert(port_texts(ports@).take(ports@.len() as int) =~= port_texts(ports@));
        },
        None => {},
    }
    out
}

} // verus!
