//! Rendering of the crawl index as an RSS 2.0 feed: one `channel` with the
//! instance's metadata, one `item` per torrent, and XML text escaping.

pub mod link;

use vstd::prelude::*;

use crate::text;
use crate::torrent::Torrent;
use link::Link;
use link::link_base_text;

verus! {

/// The XML replacement for one character: the five predefined entities are
/// escaped, everything else stays.
pub open spec fn escape_char(c: char) -> Seq<char> {
    if c == '&' {
        seq!['&', 'a', 'm', 'p', ';']
    } else if c == '<' {
        seq!['&', 'l', 't', ';']
    } else if c == '>' {
        seq!['&', 'g', 't', ';']
    } else if c == '"' {
        seq!['&', 'q', 'u', 'o', 't', ';']
    } else if c == '\'' {
        seq!['&', 'a', 'p', 'o', 's', ';']
    } else {
        seq![c]
    }
}

/// The XML-escaped form of a text: every character replaced by its entity.
pub open spec fn escape_seq(s: Seq<char>) -> Seq<char>
    decreases s.len(),
{
    if s.len() == 0 {
        Seq::empty()
    } else {
        escape_seq(s.drop_last()) + escape_char(s.last())
    }
}

/// Escapes the five predefined XML entities in `value`.
pub fn escape(value: &str) -> (r: String)
    ensures
        r@ == escape_seq(value@),
{
    let n = value.unicode_len();
    let mut out: Vec<char> = Vec::new();
    let mut i: usize = 0;
    while i < n
        invariant
            0 <= i <= n,
            n == value@.len(),
            out@ == escape_seq(value@.subrange(0, i as int)),
        decreases n - i,
    {
        let ghost before = out@;
        let c = value.get_char(i);
        if c == '&' {
            out.push('&');
            out.push('a');
            out.push('m');
            out.push('p');
            out.push(';');
        } else if c == '<' {
            out.push('&');
            out.push('l');
            out.push('t');
            out.push(';');
        } else if c == '>' {
            out.push('&');
            out.push('g');
            out.push('t');
            out.push(';');
        } else if c == '"' {
            out.push('&');
            out.push('q');
            out.push('u');
            out.push('o');
            out.push('t');
            out.push(';');
        } else if c == '\'' {
            out.push('&');
            out.push('a');
            out.push('p');
            out.push('o');
            out.push('s');
            out.push(';');
        } else {
            out.push(c);
        }
        proof {
            let pre = value@.subrange(0, i + 1);
            assert(pre.drop_last() =~= value@.subrange(0, i as int));
            assert(pre.last() == value@[i as int]);
            assert(out@ =~= before + escape_char(value@[i as int]));
        }
        i += 1;
    }
    proof {
        assert(value@.subrange(0, n as int) =~= value@);
    }
    text::chars_to_string(&out)
}

/// Two decimal places of a value held in hundredths: `h` renders as
/// `h/100`, a point, and the two remaining digits.
pub open spec fn fixed2(h: int) -> Seq<char> {
    text::dec_of(h / 100) + seq!['.', text::hex_digit((h / 10) % 10), text::hex_digit(h % 10)]
}

/// The human-readable size: bytes below 1 KiB, otherwise two decimal
/// places of KiB, MiB or GiB, rounding half away from zero.
pub open spec fn size_text(v: int) -> Seq<char> {
    if v < 1024 {
        text::dec_of(v) + seq![' ', 'B']
    } else if v < 1048576 {
        fixed2((v * 200 / 1024 + 1) / 2) + seq![' ', 'K', 'B']
    } else if v < 1073741824 {
        fixed2((v * 200 / 1048576 + 1) / 2) + seq![' ', 'M', 'B']
    } else {
        fixed2((v * 200 / 1073741824 + 1) / 2) + seq![' ', 'G', 'B']
    }
}

/// The two-decimal digits of a value in hundredths.
fn fixed2_chars(h: u64) -> (r: Vec<char>)
    ensures
        r@ == fixed2(h as int),
{
    let mut v = text::dec_chars(h / 100);
    v.push('.');
    v.push((48 + ((h / 10 % 10) as u8)) as char);
    v.push((48 + ((h % 10) as u8)) as char);
    proof {
        assert(v@ =~= fixed2(h as int));
    }
    v
}

/// Renders a byte count for display: `N B` under one KiB, otherwise a
/// two-decimal `KB`, `MB` or `GB` figure.
pub fn size(value: u64) -> (r: String)
    ensures
        r@ == size_text(value as int),
{
    let mut out: Vec<char>;
    if value < 1024 {
        out = text::dec_chars(value);
        out.push(' ');
        out.push('B');
        proof {
            assert(out@ =~= size_text(value as int));
        }
    } else if value < 1048576 {
        let h = (value * 200 / 1024 + 1) / 2;
        out = fixed2_chars(h);
        out.push(' ');
        out.push('K');
        out.push('B');
        proof {
            assert(out@ =~= size_text(value as int));
        }
    } else if value < 1073741824 {
        let h = (value * 200 / 1048576 + 1) / 2;
        out = fixed2_chars(h);
        out.push(' ');
        out.push('M');
        out.push('B');
        proof {
            assert(out@ =~= size_text(value as int));
        }
    } else {
        let wide = ((value as u128) * 200 / 1073741824 + 1) / 2;
        proof {
            assert((value as u128) * 200 / 1073741824 <= 0xffffffffffffffffu128 * 200
                / 1073741824) by (nonlinear_arith)
                requires
                    value <= 0xffffffffffffffffu128,
            ;
        }
        let h = wide as u64;
        out = fixed2_chars(h);
        out.push(' ');
        out.push('G');
        out.push('B');
        proof {
            assert(out@ =~= size_text(value as int));
        }
    }
    text::chars_to_string(&out)
}

/// What the RFC 2822 rendering of a UTC timestamp is: it depends on the
/// seconds value alone.
pub uninterp spec fn rfc2822_of(secs: int) -> Seq<char>;

/// Relies on chrono's `DateTime::<Utc>::from_timestamp` and `to_rfc2822`:
/// the UTC rendering of a timestamp depends on the seconds value alone.
/// `to_rfc2822` can only represent years 0 through 9999, so any timestamp
/// outside that range renders as the empty string instead of reaching it.
#[verifier::external_body]
fn utc_rfc2822(secs: i64) -> (r: String)
    ensures
        r@ == rfc2822_of(secs as int),
{
    // Seconds of 0000-01-01T00:00:00Z and 9999-12-31T23:59:59Z.
    if !(-62167219200..=253402300799).contains(&secs) {
        return String::new();
    }
    match chrono::DateTime::<chrono::Utc>::from_timestamp(secs, 0) {
        Some(t) => t.to_rfc2822(),
        None => String::new(),
    }
}

/// Relies on `chrono::Utc::now` and `to_rfc2822`: the current wall-clock
/// time; nothing is promised of the rendered text. A host clock set
/// outside the years `to_rfc2822` can represent yields the empty string.
#[verifier::external_body]
fn now_rfc2822() -> (r: String) {
    let now = chrono::Utc::now();
    if (-62167219200..=253402300799).contains(&now.timestamp()) {
        now.to_rfc2822()
    } else {
        String::new()
    }
}

/// The feed's fixed channel header: declaration, build dates, title, and
/// the optional description and canonical link.
pub open spec fn channel_head(
    title: Seq<char>,
    description: Option<Seq<char>>,
    canonical: Option<Seq<char>>,
    date: Seq<char>,
) -> Seq<char> {
    "<?xml version=\"1.0\" encoding=\"UTF-8\"?><rss version=\"2.0\"><channel>"@ + "<pubDate>"@
        + date + "</pubDate>"@ + "<lastBuildDate>"@ + date + "</lastBuildDate>"@ + "<title>"@
        + title + "</title>"@ + (if description is Some {
        "<description>"@ + description->0 + "</description>"@
    } else {
        Seq::empty()
    }) + (if canonical is Some {
        "<link>"@ + canonical->0 + "</link>"@
    } else {
        Seq::empty()
    })
}

/// One `item` element: guid, escaped title, link, size/files description,
/// and publication date.
pub open spec fn feed_item(base: Seq<char>, t: Torrent) -> Seq<char> {
    "<item><guid>"@ + t.info_hash@ + "</guid><title>"@ + escape_seq(
        if t.name is Some {
            t.name->0@
        } else {
            "?"@
        },
    ) + "</title><link>"@ + base + t.info_hash@ + "</link>"@ + "<description>"@ + "size: "@
        + size_text(t.size as int) + (if t.files is Some {
        " / files: "@ + text::dec_of(t.files->0@.len() as int)
    } else {
        Seq::empty()
    }) + "</description>"@ + "<pubDate>"@ + rfc2822_of(t.time as int) + "</pubDate>"@ + "</item>"@
}

/// Whether `buf` is the channel header for the given metadata and some
/// build date.
pub open spec fn is_channel_head_for(
    buf: Seq<char>,
    title: Seq<char>,
    description: Option<Seq<char>>,
    canonical: Option<Seq<char>>,
) -> bool {
    exists|d: Seq<char>| buf == #[trigger] channel_head(title, description, canonical, d)
}

/// The crawl index rendered as an RSS 2.0 document, built channel header
/// first, then item by item, then committed.
pub struct Feed {
    buffer: String,
    canonical: Link,
}

impl Feed {
    /// The text accumulated so far, as contracts see it.
    pub closed spec fn spec_buffer(&self) -> Seq<char> {
        self.buffer@
    }

    /// The item link prefix, as contracts see it.
    pub closed spec fn spec_canonical(&self) -> Seq<char> {
        self.canonical.spec_text()
    }

    /// Opens a feed whose channel header carries the given build date.
    pub fn with_date(
        title: &str,
        description: Option<&str>,
        canonical: Option<&str>,
        date: &str,
    ) -> (r: Feed)
        ensures
            r.spec_buffer() == channel_head(
                title@,
                match description {
                    Some(d) => Some(d@),
                    None => None,
                },
                match canonical {
                    Some(c) => Some(c@),
                    None => None,
                },
                date@,
            ),
            r.spec_canonical() == link_base_text(
                match canonical {
                    Some(c) => Some(c@),
                    None => None,
                },
            ),
    {
        let mut buffer = String::new();
        buffer.append("<?xml version=\"1.0\" encoding=\"UTF-8\"?><rss version=\"2.0\"><channel>");
        buffer.append("<pubDate>");
        buffer.append(date);
        buffer.append("</pubDate>");
        buffer.append("<lastBuildDate>");
        buffer.append(date);
        buffer.append("</lastBuildDate>");
        buffer.append("<title>");
        buffer.append(title);
        buffer.append("</title>");
        match description {
            Some(d) => {
                buffer.append("<description>");
                buffer.append(d);
                buffer.append("</description>");
            },
            None => {},
        }
        match canonical {
            Some(c) => {
                buffer.append("<link>");
                buffer.append(c);
                buffer.append("</link>");
            },
            None => {},
        }
        let r = Feed { buffer, canonical: Link::from_url(canonical) };
        proof {
            assert(r.spec_buffer() =~= channel_head(
                title@,
                match description {
                    Some(d) => Some(d@),
                    None => None,
                },
                match canonical {
                    Some(c) => Some(c@),
                    None => None,
                },
                date@,
            ));
        }
        r
    }

    /// Opens a feed dated with the wall clock. The header is the fixed
    /// channel head for some build date; nothing more can be promised of
    /// the clock. The capacity hint only pre-sizes the buffer.
    pub fn new(title: &str, description: Option<&str>, canonical: Option<&str>, _capacity: usize)
        -> (r: Feed)
        ensures
            is_channel_head_for(
                r.spec_buffer(),
                title@,
                match description {
                    Some(x) => Some(x@),
                    None => None,
                },
                match canonical {
                    Some(c) => Some(c@),
                    None => None,
                },
            ),
            r.spec_canonical() == link_base_text(
                match canonical {
                    Some(c) => Some(c@),
                    None => None,
                },
            ),
    {
        let date = now_rfc2822();
        let r = Feed::with_date(title, description, canonical, date.as_str());
        proof {
            let dspec = match description {
                Some(x) => Some(x@),
                None => None,
            };
            let cspec = match canonical {
                Some(c) => Some(c@),
                None => None,
            };
            assert(r.spec_buffer() == channel_head(title@, dspec, cspec, date@));
        }
        r
    }

    /// Appends one `item` element for `torrent` to the channel.
    pub fn push(&mut self, torrent: Torrent)
        ensures
            final(self).spec_buffer() == old(self).spec_buffer() + feed_item(
                old(self).spec_canonical(),
                torrent,
            ),
            final(self).spec_canonical() == old(self).spec_canonical(),
    {
        self.buffer.append("<item><guid>");
        self.buffer.append(torrent.info_hash.as_str());
        self.buffer.append("</guid><title>");
        let title = match &torrent.name {
            Some(n) => escape(n.as_str()),
            None => escape("?"),
        };
        self.buffer.append(title.as_str());
        self.buffer.append("</title><link>");
        let item_link = self.canonical.link(torrent.info_hash.as_str());
        self.buffer.append(item_link.as_str());
        self.buffer.append("</link>");
        self.buffer.append("<description>");
        self.buffer.append("size: ");
        let s = size(torrent.size);
        self.buffer.append(s.as_str());
        match torrent.files() {
            Some(count) => {
                self.buffer.append(" / files: ");
                let c = text::dec_string(count as u64);
                self.buffer.append(c.as_str());
            },
            None => {},
        }
        self.buffer.append("</description>");
        self.buffer.append("<pubDate>");
        let date = utc_rfc2822(torrent.time);
        self.buffer.append(date.as_str());
        self.buffer.append("</pubDate>");
        self.buffer.append("</item>");
        proof {
            assert(final(self).spec_buffer() =~= old(self).spec_buffer() + feed_item(
                old(self).spec_canonical(),
                torrent,
            ));
        }
    }

    /// Closes the channel and hands the final document back.
    pub fn commit(self) -> (r: String)
        ensures
            r@ == self.spec_buffer() + "</channel></rss>"@,
    {
        let mut buffer = self.buffer;
        buffer.append("</channel></rss>");
        buffer
    }
}

} // verus!
