//! What a server says of itself on a status request, and its JSON form.

use crate::types::{append_bytes, lemma_append_step, opt_string_view, BaseComponent, Chat};
use vstd::prelude::*;
use vstd::string::StringSliceAdditionalSpecFns;

verus! {

/// Name and number of the protocol version that the server speaks.
#[derive(Clone, Debug)]
pub struct StatusVersionSpec {
    pub name: String,
    pub protocol: i32,
}

/// One of the players that a status response lists.
#[derive(Clone, Debug)]
pub struct StatusPlayerSampleSpec {
    pub name: String,
    pub id: String,
}

/// How many players there are and may be, and some of them.
#[derive(Clone, Debug)]
pub struct StatusPlayersSpec {
    pub max: i32,
    pub online: i32,
    pub sample: Vec<StatusPlayerSampleSpec>,
}

/// The whole status of a server.
#[derive(Clone, Debug)]
pub struct StatusSpec {
    pub version: Option<StatusVersionSpec>,
    pub players: StatusPlayersSpec,
    pub description: Chat,
    pub favicon: Option<String>,
    pub enforces_secure_chat: bool,
}

/// What a version holds.
pub struct VersionView {
    pub name: Seq<char>,
    pub protocol: int,
}

/// What a listed player holds.
pub struct SampleView {
    pub name: Seq<char>,
    pub id: Seq<char>,
}

/// What a chat message holds.
pub struct ChatView {
    pub text: Seq<char>,
    pub base: BaseComponent,
}

/// What a status holds.
pub struct StatusView {
    pub version: Option<VersionView>,
    pub max: int,
    pub online: int,
    pub sample: Seq<SampleView>,
    pub description: ChatView,
    pub favicon: Option<Seq<char>>,
    pub enforces_secure_chat: bool,
}

impl View for StatusVersionSpec {
    type V = VersionView;

    open spec fn view(&self) -> VersionView {
        VersionView { name: self.name@, protocol: self.protocol as int }
    }
}

impl View for StatusPlayerSampleSpec {
    type V = SampleView;

    open spec fn view(&self) -> SampleView {
        SampleView { name: self.name@, id: self.id@ }
    }
}

impl View for Chat {
    type V = ChatView;

    open spec fn view(&self) -> ChatView {
        match self {
            Chat::Text(t) => ChatView { text: t.text@, base: t.base },
        }
    }
}

/// What each player of a list holds.
pub open spec fn samples_view(sample: Seq<StatusPlayerSampleSpec>) -> Seq<SampleView> {
    Seq::new(sample.len(), |i: int| sample[i]@)
}

/// What an optional version holds.
pub open spec fn version_view(v: Option<StatusVersionSpec>) -> Option<VersionView> {
    match v {
        Some(version) => Some(version@),
        None => None,
    }
}

impl View for StatusSpec {
    type V = StatusView;

    open spec fn view(&self) -> StatusView {
        StatusView {
            version: version_view(self.version),
            max: self.players.max as int,
            online: self.players.online as int,
            sample: samples_view(self.players.sample@),
            description: self.description@,
            favicon: opt_string_view(self.favicon),
            enforces_secure_chat: self.enforces_secure_chat,
        }
    }
}

/// The digits of `n` in base ten, as ASCII.
pub open spec fn decimal_digits(n: nat) -> Seq<u8>
    decreases n,
{
    if n < 10 {
        seq![(48 + n) as u8]
    } else {
        decimal_digits(n / 10).push((48 + n % 10) as u8)
    }
}

/// A whole number as JSON writes it.
pub open spec fn json_number(v: int) -> Seq<u8> {
    if v < 0 {
        seq![45u8] + decimal_digits((-v) as nat)
    } else {
        decimal_digits(v as nat)
    }
}

/// The ASCII digit of a number below sixteen, in lower-case hexadecimal.
pub open spec fn hex_digit(n: int) -> u8 {
    if n < 10 {
        (48 + n) as u8
    } else {
        (87 + n) as u8
    }
}

/// How one byte of a text stands inside a JSON string: quote and backslash
/// behind a backslash, control characters as `\u00XX`, every other byte as
/// it is.
pub open spec fn json_escape_byte(b: u8) -> Seq<u8> {
    if b == 34 {
        seq![92u8, 34u8]
    } else if b == 92 {
        seq![92u8, 92u8]
    } else if b < 32 {
        seq![92u8, 117u8, 48u8, 48u8, hex_digit(b as int / 16), hex_digit(b as int % 16)]
    } else {
        seq![b]
    }
}

/// The bytes of a text as they stand between the quotes of a JSON string.
pub open spec fn json_escape(bytes: Seq<u8>) -> Seq<u8>
    decreases bytes.len(),
{
    if bytes.len() == 0 {
        Seq::<u8>::empty()
    } else {
        json_escape(bytes.drop_last()) + json_escape_byte(bytes.last())
    }
}

/// A text as a JSON string.
pub open spec fn json_string(text: Seq<char>) -> Seq<u8> {
    seq![34u8] + json_escape(vstd::utf8::encode_utf8(text)) + seq![34u8]
}

/// A truth value as JSON writes it.
pub open spec fn json_bool(v: bool) -> Seq<u8> {
    if v {
        "true".spec_bytes()
    } else {
        "false".spec_bytes()
    }
}

/// A styling flag as a member of a JSON object, left out where it is not
/// set.
pub open spec fn json_flag(name: Seq<u8>, v: bool) -> Seq<u8> {
    if v {
        ",\"".spec_bytes() + name + "\":true".spec_bytes()
    } else {
        Seq::<u8>::empty()
    }
}

/// A chat message as a JSON object: its text, then the styling flags that
/// are set.
pub open spec fn json_chat(t: ChatView) -> Seq<u8> {
    "{\"text\":".spec_bytes() + json_string(t.text) + json_flag("bold".spec_bytes(), t.base.bold)
        + json_flag("italic".spec_bytes(), t.base.italic) + json_flag(
        "underlined".spec_bytes(),
        t.base.underlined,
    ) + json_flag("strikethrough".spec_bytes(), t.base.strikethrough) + json_flag(
        "obfuscated".spec_bytes(),
        t.base.obfuscated,
    ) + "}".spec_bytes()
}

/// A listed player as a JSON object.
pub open spec fn json_sample(p: SampleView) -> Seq<u8> {
    "{\"name\":".spec_bytes() + json_string(p.name) + ",\"id\":".spec_bytes() + json_string(
        p.id,
    ) + "}".spec_bytes()
}

/// The listed players, separated by commas.
pub open spec fn json_samples(sample: Seq<SampleView>) -> Seq<u8>
    decreases sample.len(),
{
    if sample.len() == 0 {
        Seq::<u8>::empty()
    } else if sample.len() == 1 {
        json_sample(sample[0])
    } else {
        json_samples(sample.drop_last()) + ",".spec_bytes() + json_sample(sample.last())
    }
}

/// The version as a member of the status object, with the comma behind it;
/// nothing where there is none.
pub open spec fn json_version(v: Option<VersionView>) -> Seq<u8> {
    match v {
        Some(version) => "\"version\":{\"name\":".spec_bytes() + json_string(version.name)
            + ",\"protocol\":".spec_bytes() + json_number(version.protocol)
            + "},".spec_bytes(),
        None => Seq::<u8>::empty(),
    }
}

/// The favicon as a member of the status object, with the comma before it;
/// nothing where there is none.
pub open spec fn json_favicon(f: Option<Seq<char>>) -> Seq<u8> {
    match f {
        Some(icon) => ",\"favicon\":".spec_bytes() + json_string(icon),
        None => Seq::<u8>::empty(),
    }
}

/// The JSON document of a status: the version where there is one, the
/// players, the description, the favicon where there is one, and whether
/// secure chat is enforced.
pub open spec fn json_status(s: StatusView) -> Seq<u8> {
    "{".spec_bytes() + json_version(s.version) + "\"players\":{\"max\":".spec_bytes()
        + json_number(s.max) + ",\"online\":".spec_bytes() + json_number(s.online)
        + ",\"sample\":[".spec_bytes() + json_samples(s.sample)
        + "]},\"description\":".spec_bytes() + json_chat(s.description) + json_favicon(s.favicon)
        + ",\"enforcesSecureChat\":".spec_bytes() + json_bool(s.enforces_secure_chat)
        + "}".spec_bytes()
}

fn write_digits(n: u32, out: &mut Vec<u8>)
    ensures
        final(out)@ == old(out)@ + decimal_digits(n as nat),
    decreases n,
{
    let ghost before = out@;
    if n >= 10 {
        write_digits(n / 10, out);
    }
    out.push((48 + n % 10) as u8);
    assert(out@ =~= before + decimal_digits(n as nat));
}

/// Appends a whole number as JSON writes it.
pub fn write_json_number(v: i32, out: &mut Vec<u8>)
    ensures
        final(out)@ == old(out)@ + json_number(v as int),
{
    let ghost before = out@;
    if v < 0 {
        out.push(45u8);
        let magnitude: u32 = (-(v as i64)) as u32;
        write_digits(magnitude, out);
    } else {
        write_digits(v as u32, out);
    }
    assert(out@ =~= before + json_number(v as int));
}

fn write_hex_digit(n: u8, out: &mut Vec<u8>)
    requires
        n < 16,
    ensures
        final(out)@ == old(out)@.push(hex_digit(n as int)),
{
    if n < 10 {
        out.push(48 + n);
    } else {
        out.push(87 + n);
    }
}

fn write_json_escaped_byte(b: u8, out: &mut Vec<u8>)
    ensures
        final(out)@ == old(out)@ + json_escape_byte(b),
{
    let ghost before = out@;
    if b == 34 {
        out.push(92u8);
        out.push(34u8);
    } else if b == 92 {
        out.push(92u8);
        out.push(92u8);
    } else if b < 32 {
        out.push(92u8);
        out.push(117u8);
        out.push(48u8);
        out.push(48u8);
        write_hex_digit(b / 16, out);
        write_hex_digit(b % 16, out);
    } else {
        out.push(b);
    }
    assert(out@ =~= before + json_escape_byte(b));
}

/// Appends a text as a JSON string.
pub fn write_json_string(text: &str, out: &mut Vec<u8>)
    ensures
        final(out)@ == old(out)@ + json_string(text@),
{
    let ghost before = out@;
    let bytes = text.as_bytes();
    out.push(34u8);
    let mut i: usize = 0;
    while i < bytes.len()
        invariant
            i <= bytes@.len(),
            out@ == before + seq![34u8] + json_escape(bytes@.take(i as int)),
        decreases bytes@.len() - i,
    {
        write_json_escaped_byte(bytes[i], out);
        assert(bytes@.take(i + 1).drop_last() =~= bytes@.take(i as int));
        i = i + 1;
        assert(out@ =~= before + seq![34u8] + json_escape(bytes@.take(i as int)));
    }
    assert(bytes@.take(i as int) =~= bytes@);
    out.push(34u8);
    assert(out@ =~= before + json_string(text@));
}

fn write_literal(piece: &str, out: &mut Vec<u8>)
    ensures
        final(out)@ == old(out)@ + piece.spec_bytes(),
{
    append_bytes(out, piece.as_bytes());
}

fn write_json_flag(name: &str, v: bool, out: &mut Vec<u8>)
    ensures
        final(out)@ == old(out)@ + json_flag(name.spec_bytes(), v),
{
    let ghost before = out@;
    if v {
        write_literal(",\"", out);
        write_literal(name, out);
        proof {
            lemma_append_step(before, ",\"".spec_bytes(), name.spec_bytes());
        }
        write_literal("\":true", out);
        proof {
            lemma_append_step(
                before,
                ",\"".spec_bytes() + name.spec_bytes(),
                "\":true".spec_bytes(),
            );
        }
    } else {
        assert(out@ =~= before + json_flag(name.spec_bytes(), v));
    }
}

fn write_json_chat(c: &Chat, out: &mut Vec<u8>)
    ensures
        final(out)@ == old(out)@ + json_chat(c@),
{
    let ghost before = out@;
    match c {
        Chat::Text(t) => {
            write_literal("{\"text\":", out);
            let ghost mut acc = "{\"text\":".spec_bytes();
            write_json_string(t.text.as_str(), out);
            proof {
                lemma_append_step(before, acc, json_string(t.text@));
                acc = acc + json_string(t.text@);
            }
            write_json_flag("bold", t.base.bold, out);
            proof {
                lemma_append_step(before, acc, json_flag("bold".spec_bytes(), t.base.bold));
                acc = acc + json_flag("bold".spec_bytes(), t.base.bold);
            }
            write_json_flag("italic", t.base.italic, out);
            proof {
                lemma_append_step(before, acc, json_flag("italic".spec_bytes(), t.base.italic));
                acc = acc + json_flag("italic".spec_bytes(), t.base.italic);
            }
            write_json_flag("underlined", t.base.underlined, out);
            proof {
                lemma_append_step(
                    before,
                    acc,
                    json_flag("underlined".spec_bytes(), t.base.underlined),
                );
                acc = acc + json_flag("underlined".spec_bytes(), t.base.underlined);
            }
            write_json_flag("strikethrough", t.base.strikethrough, out);
            proof {
                lemma_append_step(
                    before,
                    acc,
                    json_flag("strikethrough".spec_bytes(), t.base.strikethrough),
                );
                acc = acc + json_flag("strikethrough".spec_bytes(), t.base.strikethrough);
            }
            write_json_flag("obfuscated", t.base.obfuscated, out);
            proof {
                lemma_append_step(
                    before,
                    acc,
                    json_flag("obfuscated".spec_bytes(), t.base.obfuscated),
                );
                acc = acc + json_flag("obfuscated".spec_bytes(), t.base.obfuscated);
            }
            write_literal("}", out);
            proof {
                lemma_append_step(before, acc, "}".spec_bytes());
            }
        },
    }
}

fn write_json_sample(p: &StatusPlayerSampleSpec, out: &mut Vec<u8>)
    ensures
        final(out)@ == old(out)@ + json_sample(p@),
{
    let ghost before = out@;
    write_literal("{\"name\":", out);
    let ghost mut acc = "{\"name\":".spec_bytes();
    write_json_string(p.name.as_str(), out);
    proof {
        lemma_append_step(before, acc, json_string(p.name@));
        acc = acc + json_string(p.name@);
    }
    write_literal(",\"id\":", out);
    proof {
        lemma_append_step(before, acc, ",\"id\":".spec_bytes());
        acc = acc + ",\"id\":".spec_bytes();
    }
    write_json_string(p.id.as_str(), out);
    proof {
        lemma_append_step(before, acc, json_string(p.id@));
        acc = acc + json_string(p.id@);
    }
    write_literal("}", out);
    proof {
        lemma_append_step(before, acc, "}".spec_bytes());
    }
}

fn write_json_samples(sample: &Vec<StatusPlayerSampleSpec>, out: &mut Vec<u8>)
    ensures
        final(out)@ == old(out)@ + json_samples(samples_view(sample@)),
{
    let ghost before = out@;
    let ghost views = samples_view(sample@);
    let mut i: usize = 0;
    assert(out@ =~= before + json_samples(views.take(0)));
    while i < sample.len()
        invariant
            i <= sample@.len(),
            views == samples_view(sample@),
            out@ == before + json_samples(views.take(i as int)),
        decreases sample@.len() - i,
    {
        let ghost acc = json_samples(views.take(i as int));
        let ghost next = views.take(i + 1);
        assert(next.drop_last() =~= views.take(i as int));
        assert(next.last() == sample@[i as int]@);
        if i > 0 {
            write_literal(",", out);
            proof {
                lemma_append_step(before, acc, ",".spec_bytes());
            }
            write_json_sample(&sample[i], out);
            proof {
                lemma_append_step(before, acc + ",".spec_bytes(), json_sample(sample@[i as int]@));
            }
        } else {
            write_json_sample(&sample[i], out);
            assert(acc =~= Seq::<u8>::empty());
            assert(out@ =~= before + json_sample(sample@[i as int]@));
            assert(next[0] == sample@[i as int]@);
        }
        i = i + 1;
    }
    assert(views.take(i as int) =~= views);
}

impl StatusSpec {
    /// The JSON document of this status, in UTF-8.
    pub fn to_json(&self) -> (out: Vec<u8>)
        ensures
            out@ == json_status(self@),
    {
        let mut out: Vec<u8> = Vec::new();
        let ghost before = out@;
        write_literal("{", &mut out);
        let ghost mut acc = "{".spec_bytes();
        assert(out@ =~= before + acc);
        write_json_version(&self.version, &mut out);
        proof {
            lemma_append_step(before, acc, json_version(self@.version));
            acc = acc + json_version(self@.version);
        }
        write_literal("\"players\":{\"max\":", &mut out);
        proof {
            lemma_append_step(before, acc, "\"players\":{\"max\":".spec_bytes());
            acc = acc + "\"players\":{\"max\":".spec_bytes();
        }
        write_json_number(self.players.max, &mut out);
        proof {
            lemma_append_step(before, acc, json_number(self.players.max as int));
            acc = acc + json_number(self.players.max as int);
        }
        write_literal(",\"online\":", &mut out);
        proof {
            lemma_append_step(before, acc, ",\"online\":".spec_bytes());
            acc = acc + ",\"online\":".spec_bytes();
        }
        write_json_number(self.players.online, &mut out);
        proof {
            lemma_append_step(before, acc, json_number(self.players.online as int));
            acc = acc + json_number(self.players.online as int);
        }
        write_literal(",\"sample\":[", &mut out);
        proof {
            lemma_append_step(before, acc, ",\"sample\":[".spec_bytes());
            acc = acc + ",\"sample\":[".spec_bytes();
        }
        write_json_samples(&self.players.sample, &mut out);
        proof {
            lemma_append_step(before, acc, json_samples(self@.sample));
            acc = acc + json_samples(self@.sample);
        }
        write_literal("]},\"description\":", &mut out);
        proof {
            lemma_append_step(before, acc, "]},\"description\":".spec_bytes());
            acc = acc + "]},\"description\":".spec_bytes();
        }
        write_json_chat(&self.description, &mut out);
        proof {
            lemma_append_step(before, acc, json_chat(self@.description));
            acc = acc + json_chat(self@.description);
        }
        write_json_favicon(&self.favicon, &mut out);
        proof {
            lemma_append_step(before, acc, json_favicon(self@.favicon));
            acc = acc + json_favicon(self@.favicon);
        }
        write_literal(",\"enforcesSecureChat\":", &mut out);
        proof {
            lemma_append_step(before, acc, ",\"enforcesSecureChat\":".spec_bytes());
            acc = acc + ",\"enforcesSecureChat\":".spec_bytes();
        }
        write_json_bool(self.enforces_secure_chat, &mut out);
        proof {
            lemma_append_step(before, acc, json_bool(self.enforces_secure_chat));
            acc = acc + json_bool(self.enforces_secure_chat);
        }
        write_literal("}", &mut out);
        proof {
            lemma_append_step(before, acc, "}".spec_bytes());
            acc = acc + "}".spec_bytes();
        }
        assert(out@ =~= acc);
        out
    }
}

fn write_json_bool(v: bool, out: &mut Vec<u8>)
    ensures
        final(out)@ == old(out)@ + json_bool(v),
{
    if v {
        write_literal("true", out);
    } else {
        write_literal("false", out);
    }
}

fn write_json_version(v: &Option<StatusVersionSpec>, out: &mut Vec<u8>)
    ensures
        final(out)@ == old(out)@ + json_version(version_view(*v)),
{
    let ghost before = out@;
    match v {
        Some(version) => {
            write_literal("\"version\":{\"name\":", out);
            let ghost mut acc = "\"version\":{\"name\":".spec_bytes();
            write_json_string(version.name.as_str(), out);
            proof {
                lemma_append_step(before, acc, json_string(version.name@));
                acc = acc + json_string(version.name@);
            }
            write_literal(",\"protocol\":", out);
            proof {
                lemma_append_step(before, acc, ",\"protocol\":".spec_bytes());
                acc = acc + ",\"protocol\":".spec_bytes();
            }
            write_json_number(version.protocol, out);
            proof {
                lemma_append_step(before, acc, json_number(version.protocol as int));
                acc = acc + json_number(version.protocol as int);
            }
            write_literal("},", out);
            proof {
                lemma_append_step(before, acc, "},".spec_bytes());
            }
        },
        None => {
            assert(out@ =~= before + json_version(version_view(*v)));
        },
    }
}

fn write_json_favicon(f: &Option<String>, out: &mut Vec<u8>)
    ensures
        final(out)@ == old(out)@ + json_favicon(opt_string_view(*f)),
{
    let ghost before = out@;
    match f {
        Some(icon) => {
            write_literal(",\"favicon\":", out);
            write_json_string(icon.as_str(), out);
            proof {
                lemma_append_step(before, ",\"favicon\":".spec_bytes(), json_string(icon@));
            }
        },
        None => {
            assert(out@ =~= before + json_favicon(opt_string_view(*f)));
        },
    }
}

} // verus!
