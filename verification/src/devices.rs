use vstd::prelude::*;
use vstd::string::*;
use crate::decimal::{signed_decimal, write_i64};

verus! {

/// The kind of a device.
#[derive(Debug, Clone, Copy, PartialEq, Eq, Structural)]
pub enum DeviceType {
    /// Every kind.
    A,
    /// A block device.
    B,
    /// A character device.
    C,
    /// A character device without buffering.
    U,
    /// A named pipe.
    P,
}

/// What a rule lets a container do with a device, or forbids.
#[derive(Debug, Clone, Copy, PartialEq, Eq, Structural)]
pub struct Access {
    /// To read from it.
    pub read: bool,
    /// To write to it.
    pub write: bool,
    /// To create its node.
    pub mknod: bool,
}

/// One rule of the device controller. No kind stands for every kind, and no
/// number for every number.
#[derive(Debug, Clone, Copy, PartialEq, Eq, Structural)]
pub struct DeviceRule {
    /// Whether the rule allows or denies.
    pub allow: bool,
    /// The kind of device.
    pub typ: Option<DeviceType>,
    /// The major number.
    pub major: Option<i64>,
    /// The minor number.
    pub minor: Option<i64>,
    /// What is allowed or denied.
    pub access: Access,
}

/// A device node that is made inside a container.
#[derive(Debug, Clone, PartialEq, Eq)]
pub struct DeviceNode {
    /// Where the node is made.
    pub path: String,
    /// The kind of device.
    pub typ: DeviceType,
    /// The major number.
    pub major: i64,
    /// The minor number.
    pub minor: i64,
    /// The permission bits of the node.
    pub file_mode: Option<u32>,
    /// The owner of the node.
    pub uid: Option<u32>,
    /// The group of the node.
    pub gid: Option<u32>,
}

/// A device node, with its path as the text that it is.
pub struct DeviceNodeView {
    pub path: Seq<char>,
    pub typ: DeviceType,
    pub major: i64,
    pub minor: i64,
    pub file_mode: Option<u32>,
    pub uid: Option<u32>,
    pub gid: Option<u32>,
}

impl View for DeviceNode {
    type V = DeviceNodeView;

    open spec fn view(&self) -> DeviceNodeView {
        DeviceNodeView {
            path: self.path@,
            typ: self.typ,
            major: self.major,
            minor: self.minor,
            file_mode: self.file_mode,
            uid: self.uid,
            gid: self.gid,
        }
    }
}

/// Full access: read, write and create.
pub open spec fn rwm() -> Access {
    Access { read: true, write: true, mknod: true }
}

/// Leave to create the node, and nothing else.
pub open spec fn mknod_only() -> Access {
    Access { read: false, write: false, mknod: true }
}

/// A rule that allows.
pub open spec fn allowed(
    typ: DeviceType,
    major: Option<i64>,
    minor: Option<i64>,
    access: Access,
) -> DeviceRule {
    DeviceRule { allow: true, typ: Some(typ), major, minor, access }
}

/// The rules that every container gets, whatever else is asked for it:
/// leave to create the node of any character or block device, and full
/// access to the console, the pseudo-terminals and their multiplexer, the
/// tunnel device, and the two sources of random bytes.
pub open spec fn default_allow_rules() -> Seq<DeviceRule> {
    seq![
        allowed(DeviceType::C, None, None, mknod_only()),
        allowed(DeviceType::B, None, None, mknod_only()),
        allowed(DeviceType::C, Some(5), Some(1), rwm()),
        allowed(DeviceType::C, Some(136), None, rwm()),
        allowed(DeviceType::C, Some(5), Some(2), rwm()),
        allowed(DeviceType::C, Some(10), Some(200), rwm()),
        allowed(DeviceType::C, Some(1), Some(8), rwm()),
        allowed(DeviceType::C, Some(1), Some(9), rwm()),
    ]
}

/// The rules that every container gets.
pub fn default_allow_devices() -> (rules: Vec<DeviceRule>)
    ensures
        rules@ == default_allow_rules(),
{
    let full = Access { read: true, write: true, mknod: true };
    let create = Access { read: false, write: false, mknod: true };
    let mut rules: Vec<DeviceRule> = Vec::new();
    rules.push(
        DeviceRule { allow: true, typ: Some(DeviceType::C), major: None, minor: None, access: create },
    );
    rules.push(
        DeviceRule { allow: true, typ: Some(DeviceType::B), major: None, minor: None, access: create },
    );
    // the console
    rules.push(
        DeviceRule {
            allow: true,
            typ: Some(DeviceType::C),
            major: Some(5),
            minor: Some(1),
            access: full,
        },
    );
    // the pseudo-terminals
    rules.push(
        DeviceRule {
            allow: true,
            typ: Some(DeviceType::C),
            major: Some(136),
            minor: None,
            access: full,
        },
    );
    // their multiplexer
    rules.push(
        DeviceRule {
            allow: true,
            typ: Some(DeviceType::C),
            major: Some(5),
            minor: Some(2),
            access: full,
        },
    );
    // the tunnel device
    rules.push(
        DeviceRule {
            allow: true,
            typ: Some(DeviceType::C),
            major: Some(10),
            minor: Some(200),
            access: full,
        },
    );
    // the blocking source of random bytes
    rules.push(
        DeviceRule {
            allow: true,
            typ: Some(DeviceType::C),
            major: Some(1),
            minor: Some(8),
            access: full,
        },
    );
    // the source of random bytes that does not block
    rules.push(
        DeviceRule {
            allow: true,
            typ: Some(DeviceType::C),
            major: Some(1),
            minor: Some(9),
            access: full,
        },
    );
    assert(rules@ =~= default_allow_rules());
    rules
}

/// A character device node that everyone may read and write, owned by
/// whoever makes it.
pub open spec fn char_node(path: Seq<char>, major: i64, minor: i64) -> DeviceNodeView {
    DeviceNodeView {
        path,
        typ: DeviceType::C,
        major,
        minor,
        file_mode: Some(0o066u32),
        uid: None,
        gid: None,
    }
}

/// The nodes that every container gets: the null, zero and full devices,
/// the terminal of the process, and the two sources of random bytes.
pub open spec fn default_nodes() -> Seq<DeviceNodeView> {
    seq![
        char_node("/dev/null"@, 1, 3),
        char_node("/dev/zero"@, 1, 5),
        char_node("/dev/full"@, 1, 7),
        char_node("/dev/tty"@, 5, 0),
        char_node("/dev/urandom"@, 1, 9),
        char_node("/dev/random"@, 1, 8),
    ]
}

/// The views of a list of nodes.
pub open spec fn node_views(nodes: Seq<DeviceNode>) -> Seq<DeviceNodeView> {
    nodes.map_values(|n: DeviceNode| n@)
}

fn char_device(path: &str, major: i64, minor: i64) -> (node: DeviceNode)
    ensures
        node@ == char_node(path@, major, minor),
{
    DeviceNode {
        path: path.to_owned(),
        typ: DeviceType::C,
        major,
        minor,
        file_mode: Some(0o066),
        uid: None,
        gid: None,
    }
}

/// The nodes that every container gets.
pub fn default_devices() -> (nodes: Vec<DeviceNode>)
    ensures
        node_views(nodes@) == default_nodes(),
{
    let mut nodes: Vec<DeviceNode> = Vec::new();
    nodes.push(char_device("/dev/null", 1, 3));
    nodes.push(char_device("/dev/zero", 1, 5));
    nodes.push(char_device("/dev/full", 1, 7));
    nodes.push(char_device("/dev/tty", 5, 0));
    nodes.push(char_device("/dev/urandom", 1, 9));
    nodes.push(char_device("/dev/random", 1, 8));
    assert(node_views(nodes@) =~= default_nodes());
    nodes
}

/// The letter of a kind of device; `a` where no kind is given.
pub open spec fn type_letter(typ: Option<DeviceType>) -> u8 {
    match typ {
        None => 'a' as u8,
        Some(DeviceType::A) => 'a' as u8,
        Some(DeviceType::B) => 'b' as u8,
        Some(DeviceType::C) => 'c' as u8,
        Some(DeviceType::U) => 'u' as u8,
        Some(DeviceType::P) => 'p' as u8,
    }
}

/// A device number as text; `*` where no number is given.
pub open spec fn number_text(number: Option<i64>) -> Seq<u8> {
    match number {
        None => seq!['*' as u8],
        Some(n) => signed_decimal(n as int),
    }
}

/// An access as text: of the letters `r`, `w` and `m`, in this order, those
/// that it holds.
pub open spec fn access_text(access: Access) -> Seq<u8> {
    (if access.read {
        seq!['r' as u8]
    } else {
        Seq::<u8>::empty()
    }) + (if access.write {
        seq!['w' as u8]
    } else {
        Seq::<u8>::empty()
    }) + (if access.mknod {
        seq!['m' as u8]
    } else {
        Seq::<u8>::empty()
    })
}

/// A rule as the kernel reads one: the letter of the kind, a space, the major
/// number, a colon, the minor number, a space, and the access.
pub open spec fn rule_text(rule: DeviceRule) -> Seq<u8> {
    seq![type_letter(rule.typ), ' ' as u8] + number_text(rule.major) + seq![':' as u8]
        + number_text(rule.minor) + seq![' ' as u8] + access_text(rule.access)
}

fn push_number(out: &mut Vec<u8>, number: Option<i64>)
    ensures
        final(out)@ == old(out)@ + number_text(number),
{
    match number {
        None => {
            out.push('*' as u8);
        },
        Some(n) => {
            let mut digits = write_i64(n);
            out.append(&mut digits);
        },
    }
}

impl Access {
    /// The access as text.
    pub fn to_text(&self) -> (text: Vec<u8>)
        ensures
            text@ == access_text(*self),
    {
        let mut text: Vec<u8> = Vec::new();
        if self.read {
            text.push('r' as u8);
        }
        if self.write {
            text.push('w' as u8);
        }
        if self.mknod {
            text.push('m' as u8);
        }
        assert(text@ =~= access_text(*self));
        text
    }
}

impl DeviceRule {
    /// The rule as the kernel reads one.
    pub fn to_text(&self) -> (text: Vec<u8>)
        ensures
            text@ == rule_text(*self),
    {
        let mut text: Vec<u8> = Vec::new();
        let letter: u8 = match self.typ {
            None => 'a' as u8,
            Some(DeviceType::A) => 'a' as u8,
            Some(DeviceType::B) => 'b' as u8,
            Some(DeviceType::C) => 'c' as u8,
            Some(DeviceType::U) => 'u' as u8,
            Some(DeviceType::P) => 'p' as u8,
        };
        text.push(letter);
        text.push(' ' as u8);
        push_number(&mut text, self.major);
        text.push(':' as u8);
        push_number(&mut text, self.minor);
        text.push(' ' as u8);
        let mut access = self.access.to_text();
        text.append(&mut access);
        assert(text@ =~= rule_text(*self));
        text
    }
}

/// The access that a text of the letters `r`, `w` and `m` names, in any
/// order and number; `None` where the text holds anything else.
pub open spec fn access_named(text: Seq<u8>) -> Option<Access> {
    if forall|i: int|
        0 <= i < text.len() ==> #[trigger] text[i] == 'r' as u8 || text[i] == 'w' as u8 || text[i]
            == 'm' as u8 {
        Some(
            Access {
                read: text.contains('r' as u8),
                write: text.contains('w' as u8),
                mknod: text.contains('m' as u8),
            },
        )
    } else {
        None
    }
}

impl Access {
    /// Reads an access from its letters.
    pub fn parse(text: &[u8]) -> (r: Option<Access>)
        ensures
            r == access_named(text@),
    {
        let mut access = Access { read: false, write: false, mknod: false };
        let mut i: usize = 0;
        while i < text.len()
            invariant
                i <= text.len(),
                access_named(text@.subrange(0, i as int)) == Some(access),
            decreases text.len() - i,
        {
            let b = text[i];
            let ghost before = text@.subrange(0, i as int);
            let ghost after = text@.subrange(0, i + 1);
            assert(after =~= before.push(b));
            if b == 'r' as u8 {
                access.read = true;
            } else if b == 'w' as u8 {
                access.write = true;
            } else if b == 'm' as u8 {
                access.mknod = true;
            } else {
                assert(text@[i as int] == b);
                return None;
            }
            proof {
                assert forall|j: int| 0 <= j < after.len() implies #[trigger] after[j] == 'r' as u8
                    || after[j] == 'w' as u8 || after[j] == 'm' as u8 by {
                    if j < i {
                        assert(before[j] == after[j]);
                    }
                }
                lemma_contains_push(before, b, 'r' as u8);
                lemma_contains_push(before, b, 'w' as u8);
                lemma_contains_push(before, b, 'm' as u8);
            }
            i += 1;
        }
        assert(text@.subrange(0, i as int) =~= text@);
        Some(access)
    }
}

/// After a push a sequence holds what it held before, and what was pushed.
pub proof fn lemma_contains_push(s: Seq<u8>, pushed: u8, sought: u8)
    ensures
        s.push(pushed).contains(sought) <==> s.contains(sought) || pushed == sought,
{
    let t = s.push(pushed);
    if s.contains(sought) {
        let k = choose|k: int| 0 <= k < s.len() && s[k] == sought;
        assert(t[k] == sought);
    }
    if pushed == sought {
        assert(t[s.len() as int] == sought);
    }
    if t.contains(sought) {
        let k = choose|k: int| 0 <= k < t.len() && t[k] == sought;
        if k < s.len() {
            assert(s[k] == sought);
        }
    }
}

} // verus!
