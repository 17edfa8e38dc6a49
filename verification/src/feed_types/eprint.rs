//! The OAI-PMH preprint fetcher.
//!
//! One XML document holds many `record` elements. The scan is a token-level
//! fold: a cursor holds the most recently opened element's name (an end tag
//! does not reset it), text content is routed into the matching accumulator
//! field, and a `record` end boundary snapshots the accumulator. Each
//! record then becomes zero or one article:
//! it must carry a parsable first date on or after the threshold and pass
//! the relevance filter.

use vstd::prelude::*;

use crate::errors::AppError;
use crate::models::BlogArticle;
use crate::models::BlogArticleV;
use crate::models::Date;
use crate::models::EprintConfig;
use crate::models::EprintConfigV;
use crate::text::chars_of;
use crate::text::contains_chars;
use crate::text::ends_with_chars;
use crate::text::find_char;
use crate::text::find_char_in;
use crate::text::join_strings;
use crate::text::spec_join;
use crate::text::lower_of;
use crate::text::lowercase_str;
use crate::text::spec_contains;
use crate::text::spec_ends_with;
use crate::text::spec_trim;
use crate::text::str_eq;
use crate::text::string_from_chars;
use crate::text::sub_chars;
use crate::text::trim_chars;
use crate::utils::chrono_parse;
use crate::utils::parse_naive_date;

verus! {

/// Fetches articles of an OAI-PMH preprint listing.
pub struct EprintFetcher;

/// One parsing event of the scan, reduced to plain values.
#[derive(Debug, Clone)]
pub enum XmlToken {
    /// A start tag, by its (possibly namespace-qualified) name.
    Start(String),
    /// Unescaped character data.
    Text(String),
    /// An end tag, by its name.
    End(String),
    /// Any other event: declarations, comments, CDATA and the like.
    Other,
    /// The end of the document, or a read error that stops the scan.
    Eof,
}

/// The mathematical value of an `XmlToken`.
pub enum XmlTokenV {
    Start(Seq<char>),
    Text(Seq<char>),
    End(Seq<char>),
    Other,
    Eof,
}

impl View for XmlToken {
    type V = XmlTokenV;

    open spec fn view(&self) -> XmlTokenV {
        match self {
            XmlToken::Start(n) => XmlTokenV::Start(n@),
            XmlToken::Text(t) => XmlTokenV::Text(t@),
            XmlToken::End(n) => XmlTokenV::End(n@),
            XmlToken::Other => XmlTokenV::Other,
            XmlToken::Eof => XmlTokenV::Eof,
        }
    }
}

/// The events quick_xml produces for a document, in order and reduced to
/// plain values: a function of the text alone. The sequence ends where the
/// document ends or where reading first fails; it never holds `Eof`.
pub uninterp spec fn xml_events_of(content: Seq<char>) -> Seq<XmlTokenV>;

/// The events a live scanner has yet to produce.
pub uninterp spec fn scanner_events(s: XmlScanner) -> Seq<XmlTokenV>;

/// The token source over one document; holds the quick_xml reader and its
/// event buffer.
#[verifier::external_body]
pub struct XmlScanner {
    reader: quick_xml::Reader<std::io::Cursor<Vec<u8>>>,
    buf: Vec<u8>,
}

/// Relies on quick_xml::Reader::from_reader: the new scanner will produce
/// exactly the events of the document.
#[verifier::external_body]
fn xml_scanner(content: &str) -> (r: XmlScanner)
    ensures
        scanner_events(r) == xml_events_of(content@),
{
    XmlScanner {
        reader: quick_xml::Reader::from_reader(std::io::Cursor::new(content.as_bytes().to_vec())),
        buf: Vec::new(),
    }
}

/// Relies on quick_xml::Reader::read_event_into, BytesStart::name and
/// BytesText::unescape: each call pops the next event; the document's end,
/// a read error and an unescape error all end the stream. After the stream
/// has ended nothing is said of the scanner's remaining events: a caller
/// stops at the first Eof.
#[verifier::external_body]
fn next_token(s: &mut XmlScanner) -> (t: XmlToken)
    ensures
        scanner_events(*old(s)).len() > 0 ==> t@ == scanner_events(*old(s))[0] && !(t@ is Eof)
            && scanner_events(*final(s)) == scanner_events(*old(s)).skip(1),
        scanner_events(*old(s)).len() == 0 ==> t@ is Eof,
{
    let t = match s.reader.read_event_into(&mut s.buf) {
        Ok(quick_xml::events::Event::Start(e)) => XmlToken::Start(String::from_utf8_lossy(e.name().as_ref()).into_owned()),
        Ok(quick_xml::events::Event::End(e)) => XmlToken::End(String::from_utf8_lossy(e.name().as_ref()).into_owned()),
        Ok(quick_xml::events::Event::Text(e)) => match e.unescape() {
            Ok(txt) => XmlToken::Text(txt.into_owned()),
            Err(_) => XmlToken::Eof,
        },
        Ok(quick_xml::events::Event::Eof) => XmlToken::Eof,
        Ok(_) => XmlToken::Other,
        Err(_) => XmlToken::Eof,
    };
    s.buf.clear();
    t
}

/// One record's accumulator, filled while scanning.
#[derive(Debug, Clone)]
pub struct OaiRecord {
    pub datestamp: String,
    pub identifier: String,
    pub title: String,
    pub creators: Vec<String>,
    pub dates: Vec<String>,
    pub description: String,
    pub subject: String,
}

/// The mathematical value of an `OaiRecord`.
pub struct OaiRecordV {
    pub datestamp: Seq<char>,
    pub identifier: Seq<char>,
    pub title: Seq<char>,
    pub creators: Seq<Seq<char>>,
    pub dates: Seq<Seq<char>>,
    pub description: Seq<char>,
    pub subject: Seq<char>,
}

impl View for OaiRecord {
    type V = OaiRecordV;

    open spec fn view(&self) -> OaiRecordV {
        OaiRecordV {
            datestamp: self.datestamp@,
            identifier: self.identifier@,
            title: self.title@,
            creators: self.creators.deep_view(),
            dates: self.dates.deep_view(),
            description: self.description@,
            subject: self.subject@,
        }
    }
}

/// The empty accumulator.
pub open spec fn spec_empty_record() -> OaiRecordV {
    OaiRecordV {
        datestamp: Seq::empty(),
        identifier: Seq::empty(),
        title: Seq::empty(),
        creators: Seq::empty(),
        dates: Seq::empty(),
        description: Seq::empty(),
        subject: Seq::empty(),
    }
}

fn empty_record() -> (r: OaiRecord)
    ensures
        r@ == spec_empty_record(),
{
    let r = OaiRecord {
        datestamp: String::new(),
        identifier: String::new(),
        title: String::new(),
        creators: Vec::new(),
        dates: Vec::new(),
        description: String::new(),
        subject: String::new(),
    };
    proof {
        assert(r.creators.deep_view() =~= Seq::<Seq<char>>::empty());
        assert(r.dates.deep_view() =~= Seq::<Seq<char>>::empty());
    }
    r
}

/// An element name without its namespace qualification: the part after the
/// first ':', or the whole name where there is none.
pub open spec fn spec_local_name(n: Seq<char>) -> Seq<char> {
    match find_char(n, ':') {
        Some(i) => n.skip(i + 1),
        None => n,
    }
}

fn local_name_of(s: &str) -> (r: String)
    ensures
        r@ == spec_local_name(s@),
{
    let v = chars_of(s);
    proof {
        assert(v@.skip(0) =~= v@);
    }
    let n = v.len();
    match find_char_in(&v, ':', 0) {
        Some(i) => {
            let sub = sub_chars(&v, i + 1, n);
            proof {
                assert(sub@ =~= v@.skip(i + 1));
            }
            string_from_chars(&sub)
        },
        None => s.to_owned(),
    }
}

/// Route one piece of text content into the accumulator: trimmed, and only
/// where it is non-empty and the cursor's local element name is recognized.
pub open spec fn spec_route(acc: OaiRecordV, cursor: Seq<char>, text: Seq<char>) -> OaiRecordV {
    let t = spec_trim(text);
    if t.len() == 0 {
        acc
    } else {
        let local = spec_local_name(cursor);
        if local == "identifier"@ {
            OaiRecordV { identifier: t, ..acc }
        } else if local == "title"@ {
            OaiRecordV { title: t, ..acc }
        } else if local == "creator"@ {
            OaiRecordV { creators: acc.creators.push(t), ..acc }
        } else if local == "date"@ {
            OaiRecordV { dates: acc.dates.push(t), ..acc }
        } else if local == "description"@ {
            OaiRecordV { description: t, ..acc }
        } else if local == "subject"@ {
            OaiRecordV { subject: t, ..acc }
        } else if local == "datestamp"@ {
            OaiRecordV { datestamp: t, ..acc }
        } else {
            acc
        }
    }
}

fn route_text(acc: OaiRecord, cursor: &str, text: &str) -> (r: OaiRecord)
    ensures
        r@ == spec_route(acc@, cursor@, text@),
{
    let tv = trim_chars(&chars_of(text));
    if tv.len() == 0 {
        return acc;
    }
    let t = string_from_chars(&tv);
    let local = local_name_of(cursor);
    let ghost before = acc@;
    let mut acc = acc;
    if str_eq(local.as_str(), "identifier") {
        acc.identifier = t;
    } else if str_eq(local.as_str(), "title") {
        acc.title = t;
    } else if str_eq(local.as_str(), "creator") {
        acc.creators.push(t);
        proof {
            assert(acc.creators.deep_view() =~= before.creators.push(tv@));
        }
    } else if str_eq(local.as_str(), "date") {
        acc.dates.push(t);
        proof {
            assert(acc.dates.deep_view() =~= before.dates.push(tv@));
        }
    } else if str_eq(local.as_str(), "description") {
        acc.description = t;
    } else if str_eq(local.as_str(), "subject") {
        acc.subject = t;
    } else if str_eq(local.as_str(), "datestamp") {
        acc.datestamp = t;
    }
    acc
}

/// The records a token stream yields: a cursor holding the most recently
/// opened element's name (an end tag leaves it in place, so trailing text
/// after a close tag is still routed under that name), an accumulator, and
/// a snapshot at every `record` end boundary. A record still open when the
/// stream ends is discarded.
pub open spec fn spec_scan(
    tokens: Seq<XmlTokenV>,
    cursor: Seq<char>,
    acc: OaiRecordV,
) -> Seq<OaiRecordV>
    decreases tokens.len(),
{
    if tokens.len() == 0 {
        seq![]
    } else {
        match tokens[0] {
            XmlTokenV::Start(n) => spec_scan(tokens.skip(1), n, acc),
            XmlTokenV::Text(t) => spec_scan(tokens.skip(1), cursor, spec_route(acc, cursor, t)),
            XmlTokenV::End(n) => if n == "record"@ {
                seq![acc] + spec_scan(tokens.skip(1), cursor, spec_empty_record())
            } else {
                spec_scan(tokens.skip(1), cursor, acc)
            },
            _ => spec_scan(tokens.skip(1), cursor, acc),
        }
    }
}

/// The records of one document.
pub open spec fn spec_records_of(content: Seq<char>) -> Seq<OaiRecordV> {
    spec_scan(xml_events_of(content), Seq::<char>::empty(), spec_empty_record())
}

/// Scan one document into its records.
fn scan_records(content: &str) -> (r: Vec<OaiRecord>)
    ensures
        r@.map_values(|x: OaiRecord| x@) == spec_records_of(content@),
{
    let mut scanner = xml_scanner(content);
    let mut records: Vec<OaiRecord> = Vec::new();
    let mut rec = empty_record();
    let mut cursor = String::new();
    let ghost all = xml_events_of(content@);
    proof {
        assert(records@.map_values(|x: OaiRecord| x@) =~= Seq::<OaiRecordV>::empty());
    }
    loop
        invariant_except_break
            spec_scan(all, Seq::<char>::empty(), spec_empty_record()) == records@.map_values(
                |x: OaiRecord| x@,
            ) + spec_scan(scanner_events(scanner), cursor@, rec@),
        ensures
            records@.map_values(|x: OaiRecord| x@) == spec_scan(
                all,
                Seq::<char>::empty(),
                spec_empty_record(),
            ),
        decreases scanner_events(scanner).len(),
    {
        let ghost events = scanner_events(scanner);
        let t = next_token(&mut scanner);
        proof {
            if events.len() > 0 {
                assert(events.skip(1) =~= scanner_events(scanner));
            }
        }
        match t {
            XmlToken::Eof => {
                proof {
                    assert(events.len() == 0);
                    assert(spec_scan(events, cursor@, rec@) =~= Seq::<OaiRecordV>::empty());
                    assert(records@.map_values(|x: OaiRecord| x@) + Seq::<OaiRecordV>::empty()
                        =~= records@.map_values(|x: OaiRecord| x@));
                }
                break ;
            },
            XmlToken::Start(n) => {
                cursor = n;
            },
            XmlToken::Text(txt) => {
                rec = route_text(rec, cursor.as_str(), txt.as_str());
            },
            XmlToken::End(n) => {
                if str_eq(n.as_str(), "record") {
                    let ghost before = records@.map_values(|x: OaiRecord| x@);
                    let ghost saved = rec@;
                    records.push(rec);
                    rec = empty_record();
                    proof {
                        let after = records@.map_values(|x: OaiRecord| x@);
                        assert(after =~= before.push(saved));
                        let tail = spec_scan(scanner_events(scanner), cursor@, rec@);
                        assert(before + (seq![saved] + tail) =~= after + tail);
                    }
                }
            },
            XmlToken::Other => {},
        }
    }
    records
}

/// The creator join: one name stands alone, two are joined by "and", and
/// three or more are comma-separated with the final pair joined by "and"
/// and no serial comma.
pub open spec fn spec_format_creators(creators: Seq<Seq<char>>) -> Seq<char> {
    if creators.len() == 0 {
        Seq::empty()
    } else if creators.len() == 1 {
        creators[0]
    } else if creators.len() == 2 {
        creators[0] + " and "@ + creators[1]
    } else {
        spec_join(creators.drop_last(), ", "@) + " and "@ + creators.last()
    }
}

/// An element-wise copy.
fn clone_strings(v: &Vec<String>) -> (r: Vec<String>)
    ensures
        r.deep_view() == v.deep_view(),
{
    let mut r: Vec<String> = Vec::new();
    let n = v.len();
    let mut i: usize = 0;
    while i < n
        invariant
            i <= n,
            n == v@.len(),
            r.deep_view() == v.deep_view().take(i as int),
        decreases n - i,
    {
        let ghost prev = r.deep_view();
        r.push(v[i].clone());
        proof {
            assert(r.deep_view() =~= prev.push(v@[i as int]@));
            assert(v.deep_view().take(i + 1 as int) =~= v.deep_view().take(i as int).push(
                v.deep_view()[i as int],
            ));
        }
        i = i + 1;
    }
    proof {
        assert(v.deep_view().take(n as int) =~= v.deep_view());
    }
    r
}

/// A record is rejected when its identifier ends with a configured
/// excluded suffix.
pub open spec fn spec_excluded(rec: OaiRecordV, cfg: EprintConfigV) -> bool {
    exists|i: int|
        0 <= i < cfg.exclude.len() && spec_ends_with(rec.identifier, #[trigger] cfg.exclude[i])
}

/// Some configured keyword occurs in the case-folded text.
pub open spec fn spec_matches_keyword(hay: Seq<char>, keys: Seq<Seq<char>>) -> bool {
    exists|i: int| 0 <= i < keys.len() && spec_contains(hay, #[trigger] keys[i])
}

/// Some creator's case-folded full name equals some allowed author's
/// case-folded name.
pub open spec fn spec_author_match(creators: Seq<Seq<char>>, authors: Seq<Seq<char>>) -> bool {
    exists|i: int, j: int|
        0 <= i < creators.len() && 0 <= j < authors.len() && lower_of(#[trigger] creators[i])
            == lower_of(#[trigger] authors[j])
}

/// The relevance filter: reject on an excluded identifier suffix, else
/// accept iff a keyword occurs in the case-folded description, title or
/// subject, or a creator matches an allowed author exactly.
pub open spec fn spec_should_include(rec: OaiRecordV, cfg: EprintConfigV) -> bool {
    &&& !spec_excluded(rec, cfg)
    &&& {
        ||| spec_matches_keyword(lower_of(rec.description), cfg.keywords)
        ||| spec_matches_keyword(lower_of(rec.title), cfg.keywords)
        ||| spec_matches_keyword(lower_of(rec.subject), cfg.keywords)
        ||| spec_author_match(rec.creators, cfg.authors)
    }
}

/// Whether some configured keyword occurs in the already-case-folded text.
fn matches_keyword(hay_lower: &str, keys: &Vec<String>) -> (r: bool)
    ensures
        r == spec_matches_keyword(hay_lower@, keys.deep_view()),
{
    let hay = chars_of(hay_lower);
    let mut i: usize = 0;
    while i < keys.len()
        invariant
            i <= keys@.len(),
            hay@ == hay_lower@,
            forall|j: int| 0 <= j < i ==> !spec_contains(hay_lower@, #[trigger] keys.deep_view()[j]),
        decreases keys@.len() - i,
    {
        if contains_chars(&hay, &chars_of(keys[i].as_str())) {
            proof {
                assert(keys.deep_view()[i as int] == keys@[i as int]@);
            }
            return true;
        }
        i = i + 1;
    }
    false
}

/// The relevance filter of the preprint fetcher; a pure function of the
/// record and the configuration.
pub fn should_include_record(record: &OaiRecord, config: &EprintConfig) -> (r: bool)
    ensures
        r == spec_should_include(record@, config@),
{
    let id = chars_of(record.identifier.as_str());
    let mut i: usize = 0;
    while i < config.exclude.len()
        invariant
            i <= config.exclude@.len(),
            id@ == record.identifier@,
            forall|j: int|
                0 <= j < i ==> !spec_ends_with(
                    record.identifier@,
                    #[trigger] config.exclude.deep_view()[j],
                ),
        decreases config.exclude@.len() - i,
    {
        if ends_with_chars(&id, &chars_of(config.exclude[i].as_str())) {
            proof {
                assert(config.exclude.deep_view()[i as int] == config.exclude@[i as int]@);
                assert(spec_ends_with(record@.identifier, config@.exclude[i as int]));
                assert(spec_excluded(record@, config@));
            }
            return false;
        }
        i = i + 1;
    }
    let description_lower = lowercase_str(record.description.as_str());
    if matches_keyword(description_lower.as_str(), &config.keywords) {
        return true;
    }
    let title_lower = lowercase_str(record.title.as_str());
    if matches_keyword(title_lower.as_str(), &config.keywords) {
        return true;
    }
    let subject_lower = lowercase_str(record.subject.as_str());
    if matches_keyword(subject_lower.as_str(), &config.keywords) {
        return true;
    }
    let mut i: usize = 0;
    while i < record.creators.len()
        invariant
            i <= record.creators@.len(),
            !spec_excluded(record@, config@),
            forall|a: int, b: int|
                0 <= a < i && 0 <= b < config.authors@.len() ==> lower_of(
                    #[trigger] record.creators.deep_view()[a],
                ) != lower_of(#[trigger] config.authors.deep_view()[b]),
        decreases record.creators@.len() - i,
    {
        let creator_lower = lowercase_str(record.creators[i].as_str());
        let mut j: usize = 0;
        while j < config.authors.len()
            invariant
                i < record.creators@.len(),
                j <= config.authors@.len(),
                !spec_excluded(record@, config@),
                creator_lower@ == lower_of(record.creators.deep_view()[i as int]),
                forall|b: int|
                    0 <= b < j ==> lower_of(record.creators.deep_view()[i as int]) != lower_of(
                        #[trigger] config.authors.deep_view()[b],
                    ),
            decreases config.authors@.len() - j,
        {
            let author_lower = lowercase_str(config.authors[j].as_str());
            if str_eq(creator_lower.as_str(), author_lower.as_str()) {
                proof {
                    assert(config.authors.deep_view()[j as int] == config.authors@[j as int]@);
                    assert(lower_of(record@.creators[i as int]) == lower_of(
                        config@.authors[j as int],
                    ));
                    assert(spec_author_match(record@.creators, config@.authors));
                }
                return true;
            }
            j = j + 1;
        }
        i = i + 1;
    }
    false
}

/// What the fetcher makes of the scanned records: each record with a
/// parsable first date on or after `since` that passes the relevance
/// filter becomes one article, under the fixed preprint source name.
pub open spec fn spec_eprint_articles(
    records: Seq<OaiRecordV>,
    since: Date,
    cfg: EprintConfigV,
) -> Seq<BlogArticleV>
    decreases records.len(),
{
    if records.len() == 0 {
        seq![]
    } else {
        let rec = records[0];
        let rest = spec_eprint_articles(records.skip(1), since, cfg);
        if rec.dates.len() > 0 && chrono_parse(rec.dates[0], "%Y-%m-%dT%H:%M:%SZ"@) is Ok {
            let d = chrono_parse(rec.dates[0], "%Y-%m-%dT%H:%M:%SZ"@)->Ok_0;
            let date = Date { year: d.0, month: d.1, day: d.2 };
            if since.spec_le(date) && spec_should_include(rec, cfg) {
                seq![
                    BlogArticleV {
                        title: rec.title,
                        url: rec.identifier,
                        date: date,
                        blog_name: "Eprint"@,
                        authors: if rec.creators.len() == 0 {
                            None
                        } else {
                            Some(spec_format_creators(rec.creators))
                        },
                    },
                ] + rest
            } else {
                rest
            }
        } else {
            rest
        }
    }
}

/// What the whole fetch makes of one document.
pub open spec fn spec_eprint_result(content: Seq<char>, since: Date, cfg: EprintConfigV) -> Seq<
    BlogArticleV,
> {
    spec_eprint_articles(spec_records_of(content), since, cfg)
}

/// Every article the preprint processing emits is dated on or after the
/// threshold it was given.
pub proof fn lemma_eprint_articles_since(records: Seq<OaiRecordV>, since: Date, cfg: EprintConfigV)
    ensures
        forall|i: int|
            0 <= i < spec_eprint_articles(records, since, cfg).len() ==> since.spec_le(
                #[trigger] spec_eprint_articles(records, since, cfg)[i].date,
            ),
    decreases records.len(),
{
    if records.len() > 0 {
        lemma_eprint_articles_since(records.skip(1), since, cfg);
    }
}

impl EprintFetcher {
    /// Join the creator names for display.
    pub fn format_creators(creators: Vec<String>) -> (r: String)
        ensures
            r@ == spec_format_creators(creators.deep_view()),
    {
        let n = creators.len();
        if n == 0 {
            String::new()
        } else if n == 1 {
            let r = creators[0].clone();
            proof {
                assert(creators.deep_view()[0] == creators@[0]@);
            }
            r
        } else if n == 2 {
            proof {
                assert(creators.deep_view()[0] == creators@[0]@);
                assert(creators.deep_view()[1] == creators@[1]@);
            }
            creators[0].clone().concat(" and ").concat(creators[1].as_str())
        } else {
            let joined = join_strings(&creators, n - 1, ", ");
            proof {
                assert(creators.deep_view().take(n - 1 as int) =~= creators.deep_view()
                    .drop_last());
                assert(creators.deep_view().last() == creators@[n - 1 as int]@);
            }
            joined.concat(" and ").concat(creators[n - 1].as_str())
        }
    }

    /// Scan an OAI-PMH response body and emit one article per relevant
    /// record dated on or after `since_date`. A record whose first date
    /// does not parse is skipped, never an error; the source name of every
    /// article is the fixed preprint sentinel.
    pub fn fetch_articles(
        &self,
        content: &str,
        since_date: &Date,
        _blog_name: &str,
        _custom_url_replace: Option<&String>,
        config: &EprintConfig,
    ) -> (r: Result<Vec<BlogArticle>, AppError>)
        ensures
            r matches Ok(v) && v@.map_values(|a: BlogArticle| a@) == spec_eprint_result(
                content@,
                *since_date,
                config@,
            ),
            r matches Ok(v) ==> forall|i: int|
                0 <= i < v@.len() ==> since_date.spec_le(#[trigger] v@[i]@.date),
    {
        let records = scan_records(content);
        let ghost records_v = records@.map_values(|x: OaiRecord| x@);
        let ghost since = *since_date;
        let ghost cfg = config@;
        let mut articles: Vec<BlogArticle> = Vec::new();
        let n = records.len();
        let mut i: usize = 0;
        proof {
            assert(records_v.skip(0) =~= records_v);
            assert(articles@.map_values(|a: BlogArticle| a@) =~= Seq::<BlogArticleV>::empty());
        }
        while i < n
            invariant
                i <= n,
                n == records@.len(),
                records_v == records@.map_values(|x: OaiRecord| x@),
                since == *since_date,
                cfg == config@,
                spec_eprint_articles(records_v, since, cfg) == articles@.map_values(
                    |a: BlogArticle| a@,
                ) + spec_eprint_articles(records_v.skip(i as int), since, cfg),
            decreases n - i,
        {
            let ghost rest_v = records_v.skip(i as int);
            proof {
                assert(rest_v[0] == records_v[i as int]);
                assert(records_v[i as int] == records@[i as int]@);
                assert(rest_v.skip(1) =~= records_v.skip(i + 1));
            }
            let rec = &records[i];
            let mut taken = false;
            if rec.dates.len() > 0 {
                proof {
                    assert(rec@.dates[0] == rec.dates@[0]@);
                }
                if let Ok(d) = parse_naive_date(rec.dates[0].as_str(), "%Y-%m-%dT%H:%M:%SZ") {
                    let date = Date { year: d.0, month: d.1, day: d.2 };
                    if since_date.le(&date) && should_include_record(rec, config) {
                        let authors = if rec.creators.len() == 0 {
                            None
                        } else {
                            Some(EprintFetcher::format_creators(clone_strings(&rec.creators)))
                        };
                        let ghost before = articles@.map_values(|a: BlogArticle| a@);
                        articles.push(
                            BlogArticle {
                                title: rec.title.clone(),
                                url: rec.identifier.clone(),
                                date,
                                blog_name: String::from_str("Eprint"),
                                authors,
                            },
                        );
                        taken = true;
                        proof {
                            let after = articles@.map_values(|a: BlogArticle| a@);
                            assert(after =~= before.push(articles@.last()@));
                            let rest = spec_eprint_articles(records_v.skip(i + 1), since, cfg);
                            assert(before + (seq![articles@.last()@] + rest) =~= after + rest);
                        }
                    }
                }
            }
            proof {
                if !taken {
                    assert(spec_eprint_articles(rest_v, since, cfg) == spec_eprint_articles(
                        records_v.skip(i + 1),
                        since,
                        cfg,
                    ));
                }
            }
            i = i + 1;
        }
        proof {
            assert(records_v.skip(n as int) =~= Seq::<OaiRecordV>::empty());
            assert(articles@.map_values(|a: BlogArticle| a@) + Seq::<BlogArticleV>::empty()
                =~= articles@.map_values(|a: BlogArticle| a@));
            lemma_eprint_articles_since(records_v, since, cfg);
            let arts = articles@.map_values(|a: BlogArticle| a@);
            assert forall|k: int| 0 <= k < articles@.len() implies since.spec_le(
                #[trigger] articles@[k]@.date,
            ) by {
                assert(arts[k] == articles@[k]@);
                assert(since.spec_le(spec_eprint_articles(records_v, since, cfg)[k].date));
            }
        }
        Ok(articles)
    }
}

} // verus!
