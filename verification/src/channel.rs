//! Release channel descriptors.
//!
//! A channel is written `<release>[-<os>-<arch>]`, where the release is
//! `latest`, `bleeding`, or a literal version string, and the host part,
//! when present, names the operating system and the architecture.

use vstd::prelude::*;

use crate::strutil::{find_char, lemma_index_of_first_concat, lemma_split_at, no_char, str_eq};

verus! {

/// Errors from parsing a channel descriptor string.
#[derive(Debug, Clone, Copy, PartialEq, Eq, Structural)]
pub enum ParseError {
    /// The release part of the descriptor is empty.
    EmptyRelease,
    /// The host part lacks an architecture component.
    MissingArch,
    /// The host part has more than two components.
    ExtraHostComponent,
}

/// The release selector of a channel.
#[derive(Debug)]
pub enum ChannelKind {
    /// Latest public release.
    Latest,
    /// Bleeding edge release directly from CI.
    Bleeding,
    /// A specific version.
    Version(String),
}

/// The host triple of a channel: operating system and architecture.
#[derive(Debug)]
pub struct Host {
    pub os: String,
    pub arch: String,
}

/// A release channel: a release selector plus a host triple.
#[derive(Debug)]
pub struct Channel {
    pub channel: ChannelKind,
    pub host: Host,
}

/// The canonical text of a release selector.
pub open spec fn kind_str(k: ChannelKind) -> Seq<char> {
    match k {
        ChannelKind::Latest => "latest"@,
        ChannelKind::Bleeding => "bleeding"@,
        ChannelKind::Version(v) => v@,
    }
}

/// The canonical text of a host triple: `<os>-<arch>`.
pub open spec fn host_str(h: Host) -> Seq<char> {
    h.os@ + "-"@ + h.arch@
}

/// The canonical text of a channel: `<release>-<os>-<arch>`.
pub open spec fn channel_str(c: Channel) -> Seq<char> {
    kind_str(c.channel) + "-"@ + host_str(c.host)
}

/// A release selector `k` is what the release text `rel` parses to.
pub open spec fn kind_matches(k: ChannelKind, rel: Seq<char>) -> bool {
    &&& kind_str(k) == rel
    &&& (k is Version ==> rel != "latest"@ && rel != "bleeding"@)
    &&& (rel == "latest"@ ==> k is Latest)
    &&& (rel == "bleeding"@ ==> k is Bleeding)
}

/// The error, if any, that parsing a host text produces.
pub open spec fn spec_host_err(hs: Seq<char>) -> Option<ParseError> {
    match hs.index_of_first('-') {
        None => Some(ParseError::MissingArch),
        Some(i) => {
            if hs.skip(i + 1).contains('-') {
                Some(ParseError::ExtraHostComponent)
            } else {
                None
            }
        },
    }
}

/// A host triple `h` is what the host text `hs` parses to.
pub open spec fn host_parses_to(hs: Seq<char>, h: Host) -> bool {
    match hs.index_of_first('-') {
        None => false,
        Some(i) => {
            &&& spec_host_err(hs) is None
            &&& h.os@ == hs.take(i)
            &&& h.arch@ == hs.skip(i + 1)
        },
    }
}

/// The error, if any, that parsing a channel text produces.
pub open spec fn spec_parse_err(s: Seq<char>) -> Option<ParseError> {
    match s.index_of_first('-') {
        None => {
            if s.len() == 0 {
                Some(ParseError::EmptyRelease)
            } else {
                None
            }
        },
        Some(i) => {
            if i == 0 {
                Some(ParseError::EmptyRelease)
            } else {
                spec_host_err(s.skip(i + 1))
            }
        },
    }
}

/// A channel `c` is what the channel text `s` parses to, given the default
/// host triple `(dos, darch)` used when the text has no host part.
pub open spec fn parses_to(s: Seq<char>, c: Channel, dos: Seq<char>, darch: Seq<char>) -> bool {
    match s.index_of_first('-') {
        None => {
            &&& s.len() > 0
            &&& kind_matches(c.channel, s)
            &&& c.host.os@ == dos
            &&& c.host.arch@ == darch
        },
        Some(i) => {
            &&& i > 0
            &&& kind_matches(c.channel, s.take(i))
            &&& host_parses_to(s.skip(i + 1), c.host)
        },
    }
}

impl ChannelKind {
    /// Parses a release selector.  Any text that is not a keyword is taken
    /// as a literal version, so this never fails.
    pub fn parse(s: &str) -> (r: ChannelKind)
        ensures
            kind_matches(r, s@),
    {
        proof {
            reveal_strlit("latest");
            reveal_strlit("bleeding");
            assert("latest"@.len() == 6);
            assert("bleeding"@.len() == 8);
            assert("latest"@ != "bleeding"@);
        }
        if str_eq(s, "latest") {
            ChannelKind::Latest
        } else if str_eq(s, "bleeding") {
            ChannelKind::Bleeding
        } else {
            ChannelKind::Version(s.to_owned())
        }
    }

    /// Renders the release selector as text.
    pub fn to_string(&self) -> (r: String)
        ensures
            r@ == kind_str(*self),
    {
        match self {
            ChannelKind::Latest => "latest".to_owned(),
            ChannelKind::Bleeding => "bleeding".to_owned(),
            ChannelKind::Version(v) => v.clone(),
        }
    }
}

impl Host {
    /// Builds a host triple from its two components.
    pub fn new(os: String, arch: String) -> (r: Host)
        ensures
            r.os@ == os@,
            r.arch@ == arch@,
    {
        Host { os, arch }
    }

    /// Parses a host text of the form `<os>-<arch>`.
    pub fn parse(s: &str) -> (r: Result<Host, ParseError>)
        ensures
            match r {
                Ok(h) => host_parses_to(s@, h),
                Err(e) => spec_host_err(s@) == Some(e),
            },
            r is Err <==> spec_host_err(s@) is Some,
    {
        let n = s.unicode_len();
        match find_char(s, '-') {
            None => Err(ParseError::MissingArch),
            Some(i) => {
                let os = s.substring_char(0, i);
                let arch = s.substring_char(i + 1, n);
                proof {
                    assert(s@.subrange(0, i as int) =~= s@.take(i as int));
                    assert(s@.subrange(i + 1, n as int) =~= s@.skip(i + 1));
                }
                match find_char(arch, '-') {
                    Some(_) => Err(ParseError::ExtraHostComponent),
                    None => Ok(Host { os: os.to_owned(), arch: arch.to_owned() }),
                }
            },
        }
    }

    /// Duplicates the host triple.
    pub fn clone(&self) -> (r: Host)
        ensures
            r.os@ == self.os@,
            r.arch@ == self.arch@,
    {
        Host { os: self.os.clone(), arch: self.arch.clone() }
    }

    /// Renders the host triple as `<os>-<arch>`.
    pub fn to_string(&self) -> (r: String)
        ensures
            r@ == host_str(*self),
    {
        let mut out = self.os.clone();
        out.append("-");
        out.append(self.arch.as_str());
        out
    }
}

impl Channel {
    /// Parses a channel descriptor.  When the text has no host part, the
    /// given default host triple is used.
    pub fn parse(s: &str, default_host: &Host) -> (r: Result<Channel, ParseError>)
        ensures
            match r {
                Ok(c) => parses_to(s@, c, default_host.os@, default_host.arch@),
                Err(e) => spec_parse_err(s@) == Some(e),
            },
            r is Ok <==> spec_parse_err(s@) is None,
    {
        let n = s.unicode_len();
        match find_char(s, '-') {
            None => {
                if n == 0 {
                    Err(ParseError::EmptyRelease)
                } else {
                    let kind = ChannelKind::parse(s);
                    Ok(Channel { channel: kind, host: default_host.clone() })
                }
            },
            Some(i) => {
                if i == 0 {
                    Err(ParseError::EmptyRelease)
                } else {
                    let rel = s.substring_char(0, i);
                    let rest = s.substring_char(i + 1, n);
                    proof {
                        assert(s@.subrange(0, i as int) =~= s@.take(i as int));
                        assert(s@.subrange(i + 1, n as int) =~= s@.skip(i + 1));
                    }
                    let kind = ChannelKind::parse(rel);
                    match Host::parse(rest) {
                        Ok(h) => Ok(Channel { channel: kind, host: h }),
                        Err(e) => Err(e),
                    }
                }
            },
        }
    }

    /// Renders the channel as `<release>-<os>-<arch>`.
    pub fn to_string(&self) -> (r: String)
        ensures
            r@ == channel_str(*self),
    {
        let mut out = self.channel.to_string();
        out.append("-");
        let host = self.host.to_string();
        out.append(host.as_str());
        proof {
            assert(out@ =~= channel_str(*self));
        }
        out
    }
}

/// Law: rendering a channel parsed from a text with an explicit host
/// reproduces the text exactly.
pub proof fn lemma_parse_render_roundtrip(s: Seq<char>, c: Channel, dos: Seq<char>, darch: Seq<char>)
    requires
        parses_to(s, c, dos, darch),
        s.index_of_first('-') is Some,
    ensures
        channel_str(c) == s,
{
    reveal_strlit("-");
    assert("-"@ =~= seq!['-']);
    s.index_of_first_ensures('-');
    match s.index_of_first('-') {
        None => {},
        Some(i) => {
            let h = s.skip(i + 1);
            h.index_of_first_ensures('-');
            match h.index_of_first('-') {
                None => {},
                Some(j) => {
                    lemma_split_at(s, i);
                    lemma_split_at(h, j);
                    assert(channel_str(c) =~= s.take(i) + seq!['-'] + (h.take(j) + seq![
                        '-',
                    ] + h.skip(j + 1)));
                    assert(channel_str(c) =~= s);
                },
            }
        },
    }
}

/// Law: parsing a text without a host part takes the given default host,
/// and rendering the parsed channel appends that host to the text.
pub proof fn lemma_parse_default_host(s: Seq<char>, c: Channel, dos: Seq<char>, darch: Seq<char>)
    requires
        parses_to(s, c, dos, darch),
        s.index_of_first('-') is None,
    ensures
        c.host.os@ == dos,
        c.host.arch@ == darch,
        channel_str(c) == s + "-"@ + dos + "-"@ + darch,
{
    assert(channel_str(c) =~= s + "-"@ + dos + "-"@ + darch);
}

/// A channel value whose components survive the round trip through the
/// canonical text: the version is not a keyword and no component holds
/// a dash of its own.
pub open spec fn channel_wf(c: Channel) -> bool {
    &&& (c.channel matches ChannelKind::Version(v) ==> v@.len() > 0 && no_char(v@, '-') && v@
        != "latest"@ && v@ != "bleeding"@)
    &&& no_char(c.host.os@, '-')
    &&& no_char(c.host.arch@, '-')
}

/// Law: the canonical text of a well-formed channel parses without error.
pub proof fn lemma_render_parses(c: Channel)
    requires
        channel_wf(c),
    ensures
        spec_parse_err(channel_str(c)) is None,
{
    reveal_strlit("-");
    reveal_strlit("latest");
    reveal_strlit("bleeding");
    assert("-"@ =~= seq!['-']);
    let k = kind_str(c.channel);
    let rest = host_str(c.host);
    let s = channel_str(c);
    assert(no_char(k, '-'));
    assert(k.len() > 0);
    assert(s =~= k + seq!['-'] + rest);
    lemma_index_of_first_concat(k, rest, '-');
    assert(s.take(k.len() as int) =~= k);
    assert(s.skip(k.len() as int + 1) =~= rest);
    assert(rest =~= c.host.os@ + seq!['-'] + c.host.arch@);
    lemma_index_of_first_concat(c.host.os@, c.host.arch@, '-');
    let j = c.host.os@.len() as int;
    assert(rest.skip(j + 1) =~= c.host.arch@);
}

/// Law: parsing the canonical text of a well-formed channel yields the
/// same channel back, whatever default host is supplied.
pub proof fn lemma_render_parse_roundtrip(c: Channel, c2: Channel, dos: Seq<char>, darch: Seq<char>)
    requires
        channel_wf(c),
        parses_to(channel_str(c), c2, dos, darch),
    ensures
        kind_str(c2.channel) == kind_str(c.channel),
        c2.channel is Latest <==> c.channel is Latest,
        c2.channel is Bleeding <==> c.channel is Bleeding,
        c2.host.os@ == c.host.os@,
        c2.host.arch@ == c.host.arch@,
{
    reveal_strlit("-");
    reveal_strlit("latest");
    reveal_strlit("bleeding");
    assert("latest"@.len() == 6);
    assert("bleeding"@.len() == 8);
    assert("-"@ =~= seq!['-']);
    let k = kind_str(c.channel);
    let rest = host_str(c.host);
    let s = channel_str(c);
    assert(no_char(k, '-'));
    assert(k.len() > 0);
    assert(s =~= k + seq!['-'] + rest);
    lemma_index_of_first_concat(k, rest, '-');
    let i = k.len() as int;
    assert(s.take(i) =~= k);
    assert(s.skip(i + 1) =~= rest);
    assert(rest =~= c.host.os@ + seq!['-'] + c.host.arch@);
    lemma_index_of_first_concat(c.host.os@, c.host.arch@, '-');
    let j = c.host.os@.len() as int;
    assert(rest.take(j) =~= c.host.os@);
    assert(rest.skip(j + 1) =~= c.host.arch@);
}

} // verus!
