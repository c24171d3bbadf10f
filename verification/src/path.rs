//! File system paths and the directories that a platform sets aside for a project.

use crate::text::is_plain;
use vstd::prelude::*;
use vstd::utf8::*;

verus! {

/// The operating systems that are told apart.
#[derive(Debug, Clone, Copy, PartialEq, Eq, Structural)]
pub enum Platform {
    /// Linux.
    Linux,

    /// FreeBSD.
    FreeBsd,

    /// OpenBSD.
    OpenBsd,

    /// macOS.
    MacOs,

    /// Any other member of the Unix family.
    OtherUnix,

    /// Windows.
    Windows,
}

impl Platform {
    /// Whether the platform is a member of the Unix family.
    pub open spec fn spec_is_unix(self) -> bool {
        self != Platform::Windows
    }

    /// Whether the platform is a member of the Unix family.
    #[verifier::when_used_as_spec(spec_is_unix)]
    pub fn is_unix(self) -> (res: bool)
        ensures
            res == self.spec_is_unix(),
    {
        match self {
            Platform::Windows => false,
            _ => true,
        }
    }

    /// The byte that is put between the components of a path.
    pub open spec fn separator(self) -> u8 {
        if self.is_unix() {
            0x2f
        } else {
            0x5c
        }
    }

    /// Whether `byte` separates the components of a path. Windows takes both slashes.
    pub open spec fn separates(self, byte: u8) -> bool {
        byte == 0x2f || (byte == 0x5c && !self.is_unix())
    }

    fn is_separator(self, byte: u8) -> (res: bool)
        ensures
            res == self.separates(byte),
    {
        byte == 0x2f || (byte == 0x5c && !self.is_unix())
    }
}

/// A path, as the bytes in which the platform writes it. They need not be UTF-8.
#[derive(Debug)]
pub struct FsPath {
    /// The bytes of the path.
    pub bytes: Vec<u8>,
}

impl View for FsPath {
    type V = Seq<u8>;

    open spec fn view(&self) -> Seq<u8> {
        self.bytes@
    }
}

/// Whether `name` is a single component that names an entry: not empty, without separators, without
/// the colon that follows a drive letter, and neither `.` nor `..`.
pub open spec fn is_component(name: Seq<u8>) -> bool {
    &&& name.len() > 0
    &&& forall|i: int|
        0 <= i < name.len() ==> name[i] != 0x2f && name[i] != 0x5c && #[trigger] name[i] != 0x3a
    &&& name != seq![0x2eu8]
    &&& name != seq![0x2eu8, 0x2eu8]
}

/// Whether `base` is a drive on Windows, such as `C:`. What follows it is found in the current
/// directory of the drive.
pub open spec fn is_drive(base: Seq<u8>, platform: Platform) -> bool {
    &&& !platform.is_unix()
    &&& base.len() == 2
    &&& 0x41 <= base[0] <= 0x5a || 0x61 <= base[0] <= 0x7a
    &&& base[1] == 0x3a
}

/// Whether `base` is a verbatim path on Windows, which begins with `\\?\`.
pub open spec fn is_verbatim(base: Seq<u8>, platform: Platform) -> bool {
    &&& !platform.is_unix()
    &&& base.len() >= 4
    &&& base[0] == 0x5c
    &&& base[1] == 0x5c
    &&& base[2] == 0x3f
    &&& base[3] == 0x5c
}

/// How many bytes come before the first backslash, or before the end if there is none.
pub open spec fn component_len(bytes: Seq<u8>) -> int
    decreases bytes.len(),
{
    if bytes.len() == 0 || bytes[0] == 0x5c {
        0
    } else {
        1 + component_len(bytes.skip(1))
    }
}

/// Whether what follows `\\?\` begins with `UNC\`, so that a server and a share come next.
pub open spec fn names_share(body: Seq<u8>) -> bool {
    &&& body.len() >= 4
    &&& body[0] == 0x55
    &&& body[1] == 0x4e
    &&& body[2] == 0x43
    &&& body[3] == 0x5c || body[3] == 0x2f
}

/// Whether what follows `\\?\` begins with a drive and nothing else up to the next separator.
pub open spec fn names_drive(body: Seq<u8>) -> bool {
    &&& body.len() >= 2
    &&& 0x41 <= body[0] <= 0x5a || 0x61 <= body[0] <= 0x7a
    &&& body[1] == 0x3a
    &&& body.len() > 2 ==> body[2] == 0x5c || body[2] == 0x2f
}

/// The length of the prefix of a verbatim path: `\\?\UNC\` with a server and a share, `\\?\` with a
/// drive, or `\\?\` with any other component.
pub open spec fn verbatim_prefix_len(base: Seq<u8>) -> int {
    let body = base.skip(4);
    if names_share(body) {
        let server = component_len(body.skip(4));
        let share = if body.len() > 4 + server {
            component_len(body.skip(5 + server))
        } else {
            0
        };
        if share > 0 {
            9 + server + share
        } else {
            8 + server
        }
    } else if names_drive(body) {
        6
    } else {
        4 + component_len(body)
    }
}

/// What follows the prefix of a verbatim path. It begins with a backslash, if there is anything.
pub open spec fn after_verbatim_prefix(base: Seq<u8>) -> Seq<u8> {
    let rest = base.skip(verbatim_prefix_len(base));
    if rest.len() == 0 {
        rest
    } else {
        rest.update(0, 0x5c)
    }
}

/// `bytes` with one backslash before each component and none at the end.
pub open spec fn tidied(bytes: Seq<u8>) -> Seq<u8>
    decreases bytes.len(),
{
    if bytes.len() == 0 {
        bytes
    } else {
        let before = tidied(bytes.drop_last());
        if bytes.last() == 0x5c {
            before
        } else if bytes.len() > 1 && bytes[bytes.len() - 2] == 0x5c {
            before + seq![0x5c, bytes.last()]
        } else {
            before.push(bytes.last())
        }
    }
}

/// The path of the entry `name` in the directory `base`. What is in `base` stays as it is written,
/// unless it is a verbatim path: that is put together again from its components.
pub open spec fn joined(base: Seq<u8>, name: Seq<u8>, platform: Platform) -> Seq<u8> {
    if is_verbatim(base, platform) {
        base.take(verbatim_prefix_len(base)) + tidied(after_verbatim_prefix(base)) + seq![
            0x5cu8,
        ] + name
    } else if base.len() == 0 || platform.separates(base.last()) || is_drive(base, platform) {
        base + name
    } else {
        base + seq![platform.separator()] + name
    }
}

proof fn lemma_component_len(bytes: Seq<u8>)
    ensures
        0 <= component_len(bytes) <= bytes.len(),
        component_len(bytes) < bytes.len() ==> bytes[component_len(bytes)] == 0x5c,
    decreases bytes.len(),
{
    if bytes.len() > 0 && bytes[0] != 0x5c {
        lemma_component_len(bytes.skip(1));
    }
}

/// A separator follows the prefix of a verbatim path, if anything does.
proof fn lemma_verbatim_prefix(base: Seq<u8>)
    requires
        base.len() >= 4,
    ensures
        0 <= verbatim_prefix_len(base) <= base.len(),
        verbatim_prefix_len(base) < base.len() ==> base[verbatim_prefix_len(base)] == 0x5c
            || base[verbatim_prefix_len(base)] == 0x2f,
{
    let body = base.skip(4);
    lemma_component_len(body);
    if names_share(body) {
        let server = component_len(body.skip(4));
        lemma_component_len(body.skip(4));
        if body.len() > 4 + server {
            assert(body.skip(4)[server] == base[8 + server]);
            lemma_component_len(body.skip(5 + server));
            let share = component_len(body.skip(5 + server));
            if share < body.skip(5 + server).len() {
                assert(body.skip(5 + server)[share] == base[9 + server + share]);
            }
        }
    } else if names_drive(body) {
        if base.len() > 6 {
            assert(body[2] == base[6]);
        }
    } else if component_len(body) < body.len() {
        assert(body[component_len(body)] == base[4 + component_len(body)]);
    }
}

/// Bytes around an ASCII character are UTF-8 if and only if what is on either side of it is.
proof fn lemma_utf8_around_ascii(head: Seq<u8>, c: u8, tail: Seq<u8>)
    requires
        c < 0x80,
    ensures
        valid_utf8(head + seq![c] + tail) <==> valid_utf8(head) && valid_utf8(tail),
{
    let whole = head + seq![c] + tail;
    let rest = seq![c] + tail;
    assert(whole =~= head + rest);
    utf8_byte_ranges_bitwise(c);
    assert(pop_first_scalar(rest) =~= tail);
    assert(valid_utf8(rest) <==> valid_utf8(tail));
    if valid_utf8(head) && valid_utf8(rest) {
        valid_utf8_concat(head, rest);
    }
    if valid_utf8(whole) {
        let index = head.len() as int;
        assert(whole[index] == c);
        is_char_boundary_iff_not_is_continuation_byte(whole, index);
        valid_utf8_split(whole, index);
        assert(whole.subrange(0, index) =~= head);
        assert(whole.subrange(index, whole.len() as int) =~= rest);
    }
}

proof fn lemma_tidied_component(before: Seq<u8>, component: Seq<u8>)
    requires
        !component.contains(0x5c),
    ensures
        tidied(before + seq![0x5cu8] + component) == if component.len() == 0 {
            tidied(before)
        } else {
            tidied(before) + seq![0x5cu8] + component
        },
    decreases component.len(),
{
    let bytes = before + seq![0x5cu8] + component;
    if component.len() == 0 {
        assert(bytes.drop_last() =~= before);
    } else {
        let shorter = component.drop_last();
        assert forall|i: int| 0 <= i < shorter.len() implies shorter[i] != 0x5c by {
            assert(component[i] == shorter[i]);
            assert(component.contains(component[i]));
        }
        assert(component.contains(component.last()));
        lemma_tidied_component(before, shorter);
        assert(bytes.drop_last() =~= before + seq![0x5cu8] + shorter);
        if shorter.len() == 0 {
            assert(bytes[bytes.len() - 2] == 0x5c);
            assert(tidied(before) + seq![0x5c, component.last()] =~= tidied(before) + seq![0x5cu8]
                + component);
        } else {
            assert(bytes[bytes.len() - 2] == shorter.last());
            assert((tidied(before) + seq![0x5cu8] + shorter).push(component.last()) =~= tidied(
                before,
            ) + seq![0x5cu8] + component);
        }
    }
}

/// The position of the last backslash, if there is one.
spec fn last_backslash(bytes: Seq<u8>) -> int
    decreases bytes.len(),
{
    if bytes.len() == 0 || bytes.last() == 0x5c {
        bytes.len() - 1
    } else {
        last_backslash(bytes.drop_last())
    }
}

proof fn lemma_last_backslash(bytes: Seq<u8>)
    requires
        bytes.len() > 0,
        bytes[0] == 0x5c,
    ensures
        0 <= last_backslash(bytes) < bytes.len(),
        bytes[last_backslash(bytes)] == 0x5c,
        !bytes.skip(last_backslash(bytes) + 1).contains(0x5c),
    decreases bytes.len(),
{
    let k = last_backslash(bytes);
    if bytes.last() != 0x5c {
        lemma_last_backslash(bytes.drop_last());
        let after = bytes.skip(k + 1);
        assert forall|i: int| 0 <= i < after.len() implies #[trigger] after[i] != 0x5c by {
            if i < after.len() - 1 {
                let rest = bytes.drop_last().skip(k + 1);
                assert(rest[i] == after[i]);
                assert(rest.contains(rest[i]));
            }
        }
    }
}

proof fn lemma_tidied_utf8(head: Seq<u8>, bytes: Seq<u8>)
    requires
        bytes.len() > 0 ==> bytes[0] == 0x5c,
    ensures
        valid_utf8(head + tidied(bytes)) <==> valid_utf8(head + bytes),
    decreases bytes.len(),
{
    if bytes.len() > 0 {
        lemma_last_backslash(bytes);
        let k = last_backslash(bytes);
        let before = bytes.take(k);
        let component = bytes.skip(k + 1);
        assert(bytes =~= before + seq![0x5cu8] + component);
        lemma_tidied_component(before, component);
        lemma_tidied_utf8(head, before);
        lemma_utf8_around_ascii(head + before, 0x5c, component);
        assert(head + bytes =~= head + before + seq![0x5cu8] + component);
        if component.len() > 0 {
            lemma_utf8_around_ascii(head + tidied(before), 0x5c, component);
            assert(head + tidied(bytes) =~= head + tidied(before) + seq![0x5cu8] + component);
        }
    }
}

/// A path is UTF-8 if and only if that of its directory is, provided that its name is ASCII.
pub proof fn lemma_joined_utf8(base: Seq<u8>, name: Seq<u8>, platform: Platform)
    requires
        name.len() > 0,
        name[0] < 0x80,
        valid_utf8(name),
    ensures
        valid_utf8(joined(base, name, platform)) <==> valid_utf8(base),
{
    let rest = name.skip(1);
    assert(name =~= Seq::<u8>::empty() + seq![name[0]] + rest);
    lemma_utf8_around_ascii(Seq::empty(), name[0], rest);
    if is_verbatim(base, platform) {
        let n = verbatim_prefix_len(base);
        let prefix = base.take(n);
        let after = after_verbatim_prefix(base);
        lemma_verbatim_prefix(base);
        lemma_utf8_around_ascii(prefix + tidied(after), 0x5c, name);
        lemma_tidied_utf8(prefix, after);
        if n < base.len() {
            let body = base.skip(n + 1);
            lemma_utf8_around_ascii(prefix, base[n], body);
            lemma_utf8_around_ascii(prefix, 0x5c, body);
            assert(base =~= prefix + seq![base[n]] + body);
            assert(prefix + after =~= prefix + seq![0x5cu8] + body);
        } else {
            assert(prefix + after =~= base);
        }
    } else {
        lemma_utf8_around_ascii(base, platform.separator(), name);
        lemma_utf8_around_ascii(base, name[0], rest);
        assert(base + name =~= base + seq![name[0]] + rest);
    }
}

/// Plain text that is not empty and does not begin with a dot is a single component of a path.
pub proof fn lemma_plain_name(name: Seq<char>)
    requires
        name.len() > 0,
        name[0] != '.',
        is_plain(name),
    ensures
        is_component(encode_utf8(name)),
{
    is_ascii_chars_encode_utf8(name);
    let bytes = encode_utf8(name);
    assert forall|i: int| 0 <= i < bytes.len() implies bytes[i] != 0x2f && bytes[i] != 0x5c
        && #[trigger] bytes[i] != 0x3a by {
        assert(bytes[i] == name[i] as u8);
        assert((name[i] as nat) < 128);
    }
    assert(bytes[0] == name[0] as u8);
    assert((name[0] as nat) < 128);
}

/// Read `bytes` as UTF-8, giving them back if they are not.
///
/// Calls `String::from_utf8`, which accepts valid UTF-8 and nothing else, and keeps the bytes.
#[verifier::external_body]
fn utf8_text(bytes: Vec<u8>) -> (res: Result<String, Vec<u8>>)
    ensures
        res is Ok <==> valid_utf8(bytes@),
        res matches Ok(text) ==> text@ == decode_utf8(bytes@),
        res matches Err(same) ==> same@ == bytes@,
{
    String::from_utf8(bytes).map_err(|error| error.into_bytes())
}

/// What `String::from_utf8_lossy` reads from bytes.
pub uninterp spec fn lossy(bytes: Seq<u8>) -> Seq<char>;

/// Read `bytes` as UTF-8, with a replacement character for what is not.
///
/// Calls `String::from_utf8_lossy`, which decodes valid UTF-8 as it is.
#[verifier::external_body]
fn lossy_text(bytes: &[u8]) -> (res: String)
    ensures
        res@ == lossy(bytes@),
        valid_utf8(bytes@) ==> res@ == decode_utf8(bytes@),
{
    String::from_utf8_lossy(bytes).into_owned()
}

/// Whether a surrogate that is not paired is written at `i`, as it may be in a path on Windows.
pub open spec fn is_surrogate_at(bytes: Seq<u8>, i: int) -> bool {
    &&& 0 <= i < bytes.len() - 2
    &&& bytes[i] == 0xed
    &&& 0xa0 <= bytes[i + 1] <= 0xbf
    &&& is_continuation_byte(bytes[i + 2])
}

/// `bytes` with the replacement character in place of each surrogate that is not paired.
pub open spec fn with_surrogates_replaced(bytes: Seq<u8>) -> Seq<u8> {
    Seq::new(
        bytes.len(),
        |i: int|
            if is_surrogate_at(bytes, i) {
                0xefu8
            } else if is_surrogate_at(bytes, i - 1) {
                0xbfu8
            } else if is_surrogate_at(bytes, i - 2) {
                0xbdu8
            } else {
                bytes[i]
            },
    )
}

/// How a path is shown to the user. On Windows each surrogate that is not paired is replaced, and on
/// Unix what is not UTF-8.
pub open spec fn shown(bytes: Seq<u8>, platform: Platform) -> Seq<char> {
    if platform.is_unix() {
        lossy(bytes)
    } else {
        lossy(with_surrogates_replaced(bytes))
    }
}

/// In UTF-8 there are no surrogates.
proof fn lemma_no_surrogates(bytes: Seq<u8>)
    requires
        valid_utf8(bytes),
    ensures
        with_surrogates_replaced(bytes) == bytes,
{
    assert forall|i: int| !#[trigger] is_surrogate_at(bytes, i) by {
        if is_surrogate_at(bytes, i) {
            is_char_boundary_iff_not_is_continuation_byte(bytes, i);
            valid_utf8_split(bytes, i);
            let rest = bytes.subrange(i, bytes.len() as int);
            let (a, b, c) = (rest[0], rest[1], rest[2]);
            assert(a == 0xed && 0xa0 <= b <= 0xbf && 0x80 <= c <= 0xbf);
            assert(valid_first_scalar(rest));
            assert(0xD800 <= (((a & 0x0F) as u32) << 12) | (((b & 0x3f) as u32) << 6) | ((c
                & 0x3f) as u32) <= 0xDFFF) by (bit_vector)
                requires
                    a == 0xed,
                    0xa0 <= b <= 0xbf,
                    0x80 <= c <= 0xbf,
            ;
        }
    }
    assert(with_surrogates_replaced(bytes) =~= bytes);
}

fn surrogate_at(bytes: &Vec<u8>, i: usize) -> (res: bool)
    requires
        i < bytes@.len(),
    ensures
        res == is_surrogate_at(bytes@, i as int),
{
    bytes.len() - i > 2 && bytes[i] == 0xed && 0xa0 <= bytes[i + 1] && bytes[i + 1] <= 0xbf && 0x80
        <= bytes[i + 2] && bytes[i + 2] <= 0xbf
}

fn replace_surrogates(bytes: &Vec<u8>) -> (res: Vec<u8>)
    ensures
        res@ == with_surrogates_replaced(bytes@),
{
    let mut res: Vec<u8> = Vec::new();
    let mut i: usize = 0;
    while i < bytes.len()
        invariant
            i <= bytes@.len(),
            res@ == with_surrogates_replaced(bytes@).take(i as int),
        decreases bytes@.len() - i,
    {
        let byte: u8 = if surrogate_at(bytes, i) {
            0xef
        } else if i >= 1 && surrogate_at(bytes, i - 1) {
            0xbf
        } else if i >= 2 && surrogate_at(bytes, i - 2) {
            0xbd
        } else {
            bytes[i]
        };
        res.push(byte);
        i += 1;
        assert(res@ =~= with_surrogates_replaced(bytes@).take(i as int));
    }
    assert(with_surrogates_replaced(bytes@).take(i as int) =~= with_surrogates_replaced(bytes@));
    res
}

/// The position of the first backslash in `bytes` from `start` on, or their end.
fn component_end(bytes: &Vec<u8>, start: usize) -> (res: usize)
    requires
        start <= bytes@.len(),
    ensures
        res == start + component_len(bytes@.skip(start as int)),
        start <= res <= bytes@.len(),
{
    let mut i = start;
    while i < bytes.len() && bytes[i] != 0x5c
        invariant
            start <= i <= bytes@.len(),
            component_len(bytes@.skip(start as int)) == i - start + component_len(
                bytes@.skip(i as int),
            ),
        decreases bytes@.len() - i,
    {
        assert(bytes@.skip(i as int).skip(1) =~= bytes@.skip(i + 1));
        i += 1;
    }
    i
}

/// The length of the prefix of a verbatim path.
fn measure_verbatim_prefix(base: &Vec<u8>) -> (res: usize)
    requires
        base@.len() >= 4,
    ensures
        res == verbatim_prefix_len(base@),
        res <= base@.len(),
{
    let n = base.len();
    let ghost body = base@.skip(4);
    if n >= 8 && base[4] == 0x55 && base[5] == 0x4e && base[6] == 0x43 && (base[7] == 0x5c
        || base[7] == 0x2f) {
        assert(body.skip(4) =~= base@.skip(8));
        let server = component_end(base, 8);
        if server < n {
            assert(body.skip(server - 3) =~= base@.skip(server + 1));
            let share = component_end(base, server + 1);
            if share > server + 1 {
                return share;
            }
        }
        server
    } else if n >= 6 && (0x41 <= base[4] && base[4] <= 0x5a || 0x61 <= base[4] && base[4] <= 0x7a)
        && base[5] == 0x3a && (n == 6 || base[6] == 0x5c || base[6] == 0x2f) {
        6
    } else {
        component_end(base, 4)
    }
}

impl FsPath {
    /// The path as it is shown to the user. What is not UTF-8 is replaced.
    pub fn display(&self, platform: Platform) -> (res: String)
        ensures
            res@ == shown(self@, platform),
            valid_utf8(self@) ==> res@ == decode_utf8(self@),
    {
        if platform.is_unix() {
            return lossy_text(self.bytes.as_slice());
        }
        proof {
            if valid_utf8(self@) {
                lemma_no_surrogates(self@);
            }
        }
        lossy_text(replace_surrogates(&self.bytes).as_slice())
    }

    /// The path written `text`.
    pub fn new(text: &str) -> (res: FsPath)
        ensures
            res@ == encode_utf8(text@),
    {
        FsPath { bytes: text.as_bytes_vec() }
    }

    /// A copy of the path.
    pub fn duplicate(&self) -> (res: FsPath)
        ensures
            res@ == self@,
    {
        FsPath { bytes: self.bytes.clone() }
    }

    /// The verbatim path, put together again from its components.
    fn tidy_verbatim(&self) -> (res: Vec<u8>)
        requires
            self@.len() >= 4,
        ensures
            res@ == self@.take(verbatim_prefix_len(self@)) + tidied(
                after_verbatim_prefix(self@),
            ),
    {
        let start = measure_verbatim_prefix(&self.bytes);
        let ghost prefix = self@.take(start as int);
        let ghost after = after_verbatim_prefix(self@);
        let mut res = self.bytes.clone();
        res.truncate(start);
        let mut separated = false;
        let mut i = start;
        assert(res@ =~= prefix + tidied(after.take(0)));
        while i < self.bytes.len()
            invariant
                start <= i <= self@.len(),
                start == verbatim_prefix_len(self@),
                after == after_verbatim_prefix(self@),
                res@ == prefix + tidied(after.take(i - start)),
                separated == (i > start && after[i - start - 1] == 0x5c),
            decreases self@.len() - i,
        {
            let byte: u8 = if i == start {
                0x5c
            } else {
                self.bytes[i]
            };
            let ghost before = after.take(i - start);
            let ghost now = after.take(i + 1 - start);
            assert(now.last() == byte);
            assert(now.drop_last() =~= before);
            if byte == 0x5c {
                separated = true;
            } else {
                if separated {
                    res.push(0x5c);
                }
                res.push(byte);
                separated = false;
            }
            i += 1;
            assert(res@ =~= prefix + tidied(now));
        }
        assert(after.take(i - start) =~= after);
        res
    }

    /// The path of the entry `name` in this directory.
    pub fn join(&self, name: &str, platform: Platform) -> (res: FsPath)
        requires
            is_component(encode_utf8(name@)),
        ensures
            res@ == joined(self@, encode_utf8(name@), platform),
    {
        let n = self.bytes.len();
        let mut bytes;
        if !platform.is_unix() && n >= 4 && self.bytes[0] == 0x5c && self.bytes[1] == 0x5c
            && self.bytes[2] == 0x3f && self.bytes[3] == 0x5c {
            bytes = self.tidy_verbatim();
            bytes.push(0x5c);
        } else {
            bytes = self.bytes.clone();
            let drive = !platform.is_unix() && n == 2 && bytes[1] == 0x3a && (0x41 <= bytes[0]
                && bytes[0] <= 0x5a || 0x61 <= bytes[0] && bytes[0] <= 0x7a);
            if n > 0 && !platform.is_separator(bytes[n - 1]) && !drive {
                let separator: u8 = if platform.is_unix() {
                    0x2f
                } else {
                    0x5c
                };
                bytes.push(separator);
            }
        }
        let ghost written = encode_utf8(name@);
        let mut name = name.as_bytes_vec();
        bytes.append(&mut name);
        assert(bytes@ =~= joined(self@, written, platform));
        FsPath { bytes }
    }

    /// Whether the path begins with the bytes of `prefix`.
    pub fn has_prefix(&self, prefix: &str) -> (res: bool)
        ensures
            res == encode_utf8(prefix@).is_prefix_of(self@),
    {
        let wanted = prefix.as_bytes();
        let n = wanted.len();
        if n > self.bytes.len() {
            return false;
        }
        let mut i: usize = 0;
        while i < n
            invariant
                wanted@ == encode_utf8(prefix@),
                n == wanted@.len(),
                n <= self.bytes@.len(),
                i <= n,
                forall|j: int| 0 <= j < i ==> wanted@[j] == self.bytes@[j],
            decreases n - i,
        {
            if wanted[i] != self.bytes[i] {
                assert(self@.subrange(0, n as int)[i as int] != wanted@[i as int]);
                return false;
            }
            i += 1;
        }
        assert(self@.subrange(0, n as int) =~= wanted@);
        true
    }

    /// The path as text, or the path itself if it is not UTF-8.
    pub fn into_text(self) -> (res: Result<String, FsPath>)
        ensures
            res is Ok <==> valid_utf8(self@),
            res matches Ok(text) ==> text@ == decode_utf8(self@),
            res matches Err(same) ==> same@ == self@,
    {
        match utf8_text(self.bytes) {
            Ok(text) => Ok(text),
            Err(bytes) => Err(FsPath { bytes }),
        }
    }
}

/// The directories that a platform sets aside for a project.
#[derive(Debug)]
pub struct ProjectDirs {
    /// Configuration files.
    pub config_dir: FsPath,

    /// Data files.
    pub data_dir: FsPath,

    /// Data files that stay on this machine.
    pub data_local_dir: FsPath,

    /// State files, on platforms that have a place for them.
    pub state_dir: Option<FsPath>,

    /// Sockets and the like, on platforms that have a place for them.
    pub runtime_dir: Option<FsPath>,
}

/// Only Windows is not a member of the Unix family, has the backslash between components, and takes
/// both slashes for separators.
pub proof fn windows_alone_is_not_unix(platform: Platform, byte: u8)
    ensures
        platform.is_unix() <==> platform != Platform::Windows,
        platform.separator() == if platform == Platform::Windows {
            0x5cu8
        } else {
            0x2fu8
        },
        platform.separates(platform.separator()),
        platform.separates(byte) ==> byte == 0x2f || (byte == 0x5c && platform
            == Platform::Windows),
        platform.separates(0x2f),
{
}

/// Unless it is a verbatim path on Windows, a directory is the beginning of the path of an entry, and
/// the name is its end. A separator comes before the name, and is put there only if the directory
/// does not end with one. The exceptions are the empty path, which is the current directory, and a
/// drive, whose current directory is meant.
pub proof fn joined_path_is_an_entry_of_its_directory(
    base: Seq<u8>,
    name: Seq<u8>,
    platform: Platform,
)
    requires
        !is_verbatim(base, platform),
    ensures
        ({
            let path = joined(base, name, platform);
            let between = path.len() - base.len() - name.len();
            &&& path.take(base.len() as int) == base
            &&& path.skip(base.len() + between) == name
            &&& 0 <= between <= 1
            &&& base.len() == 0 ==> path == name
            &&& base.len() > 0 && !is_drive(base, platform) ==> platform.separates(
                path[path.len() - name.len() - 1],
            )
            &&& base.len() > 0 && platform.separates(base.last()) ==> path == base + name
            &&& base.len() > 0 && !platform.separates(base.last()) && !is_drive(base, platform)
                ==> path[base.len() as int] == platform.separator()
            &&& is_drive(base, platform) ==> path == base + name
        }),
{
    let path = joined(base, name, platform);
    assert(path.take(base.len() as int) =~= base);
    assert(path.skip(path.len() - name.len()) =~= name);
    if base.len() == 0 {
        assert(path =~= name);
    }
}

/// Only a letter with a colon is a drive, and only what begins with `\\?\` is verbatim, both on
/// Windows alone.
pub proof fn drives_and_verbatim_paths_are_of_windows(base: Seq<u8>, platform: Platform)
    ensures
        platform != Platform::Windows ==> !is_drive(base, platform) && !is_verbatim(base, platform),
        is_verbatim(base, Platform::Windows) <==> base.len() >= 4 && base.take(4)
            == seq![0x5cu8, 0x5c, 0x3f, 0x5c],
        is_drive(base, Platform::Windows) <==> base.len() == 2 && base[1] == 0x3a && (0x41
            <= base[0] <= 0x5a || 0x61 <= base[0] <= 0x7a),
{
    if base.len() >= 4 {
        let beginning = seq![0x5cu8, 0x5c, 0x3f, 0x5c];
        if is_verbatim(base, Platform::Windows) {
            assert(base.take(4) =~= beginning);
        }
        if base.take(4) == beginning {
            assert(base[0] == beginning[0] && base[1] == beginning[1] && base[2] == beginning[2]
                && base[3] == beginning[3]);
        }
    }
}

proof fn lemma_component_before(component: Seq<u8>, rest: Seq<u8>)
    requires
        !component.contains(0x5c),
        rest.len() > 0 ==> rest[0] == 0x5c,
    ensures
        component_len(component + rest) == component.len(),
    decreases component.len(),
{
    let all = component + rest;
    if component.len() == 0 {
        assert(all =~= rest);
    } else {
        assert(component.contains(component[0]));
        let shorter = component.skip(1);
        assert forall|i: int| 0 <= i < shorter.len() implies #[trigger] shorter[i] != 0x5c by {
            assert(component[i + 1] == shorter[i]);
            assert(component.contains(component[i + 1]));
        }
        lemma_component_before(shorter, rest);
        assert(all.skip(1) =~= shorter + rest);
    }
}

/// A verbatim path is put together from its components, one after the other: each that is not empty
/// is kept with one backslash before it, and nothing else is.
pub proof fn verbatim_path_keeps_its_components(before: Seq<u8>, component: Seq<u8>)
    requires
        !component.contains(0x5c),
    ensures
        tidied(Seq::<u8>::empty()) == Seq::<u8>::empty(),
        component.len() > 0 ==> tidied(before + seq![0x5cu8] + component) == tidied(before)
            + seq![0x5cu8] + component,
        tidied(before + seq![0x5cu8]) == tidied(before),
{
    lemma_tidied_component(before, component);
    lemma_tidied_component(before, Seq::empty());
    assert(before + seq![0x5cu8] + Seq::<u8>::empty() =~= before + seq![0x5cu8]);
}

/// In a verbatim path with a drive, what follows the drive is put together again, and the name comes
/// after it.
pub proof fn name_is_joined_to_a_verbatim_drive(letter: u8, rest: Seq<u8>, name: Seq<u8>)
    requires
        0x41 <= letter <= 0x5a || 0x61 <= letter <= 0x7a,
        rest.len() > 0 ==> rest[0] == 0x5c,
    ensures
        ({
            let drive = seq![0x5cu8, 0x5c, 0x3f, 0x5c, letter, 0x3a];
            joined(drive + rest, name, Platform::Windows) == drive + tidied(rest) + seq![0x5cu8]
                + name
        }),
{
    let drive = seq![0x5cu8, 0x5c, 0x3f, 0x5c, letter, 0x3a];
    let base = drive + rest;
    let body = base.skip(4);
    assert(body[0] == letter && body[1] == 0x3a);
    if rest.len() > 0 {
        assert(body[2] == rest[0]);
    }
    assert(names_drive(body));
    assert(base.take(6) =~= drive);
    assert(base.skip(6) =~= rest);
    if rest.len() > 0 {
        assert(rest.update(0, 0x5c) =~= rest);
    }
}

/// In a verbatim path with a server and a share, what follows the share is put together again, and
/// the name comes after it.
pub proof fn name_is_joined_to_a_verbatim_share(
    server: Seq<u8>,
    share: Seq<u8>,
    rest: Seq<u8>,
    name: Seq<u8>,
)
    requires
        !server.contains(0x5c),
        !share.contains(0x5c),
        share.len() > 0,
        rest.len() > 0 ==> rest[0] == 0x5c,
    ensures
        ({
            let prefix = seq![0x5cu8, 0x5c, 0x3f, 0x5c, 0x55, 0x4e, 0x43, 0x5c] + server
                + seq![0x5cu8] + share;
            joined(prefix + rest, name, Platform::Windows) == prefix + tidied(rest) + seq![0x5cu8]
                + name
        }),
{
    let unc = seq![0x5cu8, 0x5c, 0x3f, 0x5c, 0x55, 0x4e, 0x43, 0x5c];
    let prefix = unc + server + seq![0x5cu8] + share;
    let base = prefix + rest;
    let body = base.skip(4);
    let n = server.len() as int;
    assert(names_share(body));
    lemma_component_before(server, seq![0x5cu8] + share + rest);
    assert(body.skip(4) =~= server + (seq![0x5cu8] + share + rest));
    lemma_component_before(share, rest);
    assert(body.skip(5 + n) =~= share + rest);
    assert(verbatim_prefix_len(base) == prefix.len());
    assert(base.take(prefix.len() as int) =~= prefix);
    assert(base.skip(prefix.len() as int) =~= rest);
    if rest.len() > 0 {
        assert(rest.update(0, 0x5c) =~= rest);
    }
}

/// On Unix what is not UTF-8 is replaced as it is read, whatever the platform of the Unix family. On
/// Windows this happens after each surrogate that is not paired was replaced by one replacement
/// character. Nothing else changes before it is read.
pub proof fn surrogates_are_shown_as_one_character(
    before: Seq<u8>,
    second: u8,
    third: u8,
    after: Seq<u8>,
    platform: Platform,
)
    requires
        0xa0 <= second <= 0xbf,
        0x80 <= third <= 0xbf,
    ensures
        platform != Platform::Windows ==> shown(before, platform) == lossy(before),
        shown(before, Platform::Windows) == lossy(with_surrogates_replaced(before)),
        with_surrogates_replaced(before + seq![0xedu8, second, third] + after)
            == with_surrogates_replaced(before) + seq![0xefu8, 0xbf, 0xbd]
            + with_surrogates_replaced(after),
        (forall|i: int| !#[trigger] is_surrogate_at(before, i)) ==> with_surrogates_replaced(before)
            == before,
{
    let all = before + seq![0xedu8, second, third] + after;
    let n = before.len() as int;
    assert forall|i: int| 0 <= i < n implies #[trigger] is_surrogate_at(all, i) == is_surrogate_at(
        before,
        i,
    ) by {
        if i + 2 >= n && is_surrogate_at(all, i) {
            assert(all[n] == 0xed);
        }
    }
    assert(is_surrogate_at(all, n));
    assert(!is_surrogate_at(all, n + 1) && !is_surrogate_at(all, n + 2));
    assert forall|i: int| 0 <= i implies #[trigger] is_surrogate_at(after, i) == is_surrogate_at(
        all,
        n + 3 + i,
    ) by {}
    let left = with_surrogates_replaced(all);
    let right = with_surrogates_replaced(before) + seq![0xefu8, 0xbf, 0xbd]
        + with_surrogates_replaced(after);
    assert forall|i: int| 0 <= i < left.len() implies left[i] == right[i] by {
        if i < n {
            assert(is_surrogate_at(all, i) == is_surrogate_at(before, i));
            if i >= 1 {
                assert(is_surrogate_at(all, i - 1) == is_surrogate_at(before, i - 1));
            }
            if i >= 2 {
                assert(is_surrogate_at(all, i - 2) == is_surrogate_at(before, i - 2));
            }
        } else if i >= n + 3 {
            let j = i - n - 3;
            assert(is_surrogate_at(after, j) == is_surrogate_at(all, n + 3 + j));
            if j >= 1 {
                assert(is_surrogate_at(after, j - 1) == is_surrogate_at(all, n + 3 + (j - 1)));
            }
            if j >= 2 {
                assert(is_surrogate_at(after, j - 2) == is_surrogate_at(all, n + 3 + (j - 2)));
            }
        }
    }
    assert(left =~= right);
    if forall|i: int| !#[trigger] is_surrogate_at(before, i) {
        assert(with_surrogates_replaced(before) =~= before);
    }
}

/// In any other verbatim path, the first component belongs to the prefix. What follows it is put
/// together again, and the name comes after it.
pub proof fn name_is_joined_to_any_other_verbatim_path(
    component: Seq<u8>,
    rest: Seq<u8>,
    name: Seq<u8>,
)
    requires
        !component.contains(0x5c),
        rest.len() > 0 ==> rest[0] == 0x5c,
        component != seq![0x55u8, 0x4e, 0x43],
        component.len() >= 4 ==> component.take(4) != seq![0x55u8, 0x4e, 0x43, 0x2f],
        component.len() >= 2 ==> component[1] != 0x3a,
    ensures
        ({
            let prefix = seq![0x5cu8, 0x5c, 0x3f, 0x5c] + component;
            joined(prefix + rest, name, Platform::Windows) == prefix + tidied(rest) + seq![0x5cu8]
                + name
        }),
{
    let prefix = seq![0x5cu8, 0x5c, 0x3f, 0x5c] + component;
    let base = prefix + rest;
    let body = base.skip(4);
    assert(body =~= component + rest);
    lemma_component_before(component, rest);
    assert(!names_share(body)) by {
        if names_share(body) {
            if component.len() >= 4 {
                assert(component[0] == body[0] && component[1] == body[1] && component[2] == body[2]
                    && component[3] == body[3]);
                assert(component.contains(component[3]));
                assert(component.take(4) =~= seq![0x55u8, 0x4e, 0x43, 0x2f]);
            } else {
                if component.len() < 3 {
                    assert(body[component.len() as int] == rest[0]);
                }
                assert(component =~= seq![0x55u8, 0x4e, 0x43]);
            }
        }
    }
    assert(!names_drive(body)) by {
        if names_drive(body) && component.len() < 2 {
            assert(body[component.len() as int] == rest[0]);
        }
    }
    assert(base.take(prefix.len() as int) =~= prefix);
    assert(base.skip(prefix.len() as int) =~= rest);
    if rest.len() > 0 {
        assert(rest.update(0, 0x5c) =~= rest);
    }
}

} // verus!
