//! The upload form: which files each upload kind takes, how pasted links are split, and
//! the progress and error record of one upload run.

use vstd::prelude::*;
use crate::actions::joined;
use crate::text::{
    chars_of, ends_with_seq, nat_decimal, push_decimal, push_nat_decimal, push_str, is_white_space, str_ends_with, string_from_chars,
    trim_end_index, trim_range, trim_seq, trim_start_index,
};

verus! {

/// What is being uploaded.
#[derive(Clone, Copy, Debug, PartialEq, Eq, Structural)]
pub enum UploadType {
    Torrents,
    NZB,
    WebLinks,
}

/// The file extension a kind takes from the file picker; web links take no file.
pub open spec fn accepted_extension(t: UploadType) -> Option<Seq<char>> {
    match t {
        UploadType::Torrents => Some(".torrent"@),
        UploadType::NZB => Some(".nzb"@),
        UploadType::WebLinks => None,
    }
}

/// The file extension a kind takes from the file picker; web links take no file.
pub fn accept_extension(t: UploadType) -> (r: Option<&'static str>)
    ensures
        match r {
            Some(e) => accepted_extension(t) == Some(e@),
            None => accepted_extension(t) is None,
        },
{
    match t {
        UploadType::Torrents => Some(".torrent"),
        UploadType::NZB => Some(".nzb"),
        UploadType::WebLinks => None,
    }
}

/// A dropped file is taken when its name ends with the kind's extension.
pub open spec fn takes_file(t: UploadType, name: Seq<char>) -> bool {
    match accepted_extension(t) {
        Some(e) => ends_with_seq(name, e),
        None => false,
    }
}

/// Whether a dropped file is taken for a kind.
pub fn accepts_file_name(t: UploadType, name: &str) -> (r: bool)
    ensures
        r == takes_file(t, name@),
{
    match t {
        UploadType::Torrents => str_ends_with(name, ".torrent"),
        UploadType::NZB => str_ends_with(name, ".nzb"),
        UploadType::WebLinks => false,
    }
}

/// The text split at each line feed: the lines before the last one, and the last one.
pub open spec fn line_split(s: Seq<char>) -> (Seq<Seq<char>>, Seq<char>)
    decreases s.len(),
{
    if s.len() == 0 {
        (Seq::empty(), Seq::empty())
    } else {
        let (done, cur) = line_split(s.drop_last());
        if s.last() == '\n' {
            (done.push(cur), Seq::empty())
        } else {
            (done, cur.push(s.last()))
        }
    }
}

/// The pieces of a text between line feeds (one more than there are line feeds).
pub open spec fn newline_pieces(s: Seq<char>) -> Seq<Seq<char>> {
    line_split(s).0.push(line_split(s).1)
}

/// A line without its leading and trailing white space.
#[verifier::opaque]
pub open spec fn trimmed_line(s: Seq<char>) -> Seq<char> {
    trim_seq(s)
}

/// The pieces trimmed, in order, with the empty ones left out.
pub open spec fn kept_links(pieces: Seq<Seq<char>>) -> Seq<Seq<char>>
    decreases pieces.len(),
{
    if pieces.len() == 0 {
        Seq::empty()
    } else {
        let rest = kept_links(pieces.drop_last());
        let t = trimmed_line(pieces.last());
        if t.len() > 0 {
            rest.push(t)
        } else {
            rest
        }
    }
}

/// The links in a pasted text: each line trimmed, blank lines left out.
pub open spec fn parsed_links(s: Seq<char>) -> Seq<Seq<char>> {
    kept_links(newline_pieces(s))
}

/// The views of a list of strings.
pub open spec fn string_views(v: Seq<String>) -> Seq<Seq<char>> {
    v.map_values(|x: String| x@)
}

/// Adds `t` to `out` unless it is empty.
fn keep_nonempty(t: &Vec<char>, out: &mut Vec<String>)
    ensures
        string_views(final(out)@) == if t@.len() > 0 {
            string_views(old(out)@).push(t@)
        } else {
            string_views(old(out)@)
        },
{
    if t.len() > 0 {
        out.push(string_from_chars(t));
        assert(string_views(out@) =~= string_views(old(out)@).push(t@));
    }
}

proof fn lemma_line_split_step(s: Seq<char>, i: int)
    requires
        0 <= i < s.len(),
    ensures
        line_split(s.take(i + 1)) == (if s[i] == '\n' {
            (line_split(s.take(i)).0.push(line_split(s.take(i)).1), Seq::<char>::empty())
        } else {
            (line_split(s.take(i)).0, line_split(s.take(i)).1.push(s[i]))
        }),
{
    assert(s.take(i + 1).drop_last() =~= s.take(i));
}

proof fn lemma_kept_links_push(pieces: Seq<Seq<char>>, p: Seq<char>)
    ensures
        kept_links(pieces.push(p)) == if trimmed_line(p).len() > 0 {
            kept_links(pieces).push(trimmed_line(p))
        } else {
            kept_links(pieces)
        },
{
    assert(pieces.push(p).drop_last() =~= pieces);
}

/// The links in a pasted text: each line trimmed, blank lines left out.
pub fn parse_links(text: &str) -> (links: Vec<String>)
    ensures
        string_views(links@) == parsed_links(text@),
{
    let c = chars_of(text);
    let mut links: Vec<String> = Vec::new();
    let mut start: usize = 0;
    let mut i: usize = 0;
    while i < c.len()
        invariant
            start <= i <= c@.len(),
            c@ == text@,
            line_split(c@.take(i as int)).1 == c@.subrange(start as int, i as int),
            string_views(links@) == kept_links(line_split(c@.take(i as int)).0),
        decreases c@.len() - i,
    {
        let ghost done = line_split(c@.take(i as int)).0;
        let ghost cur = line_split(c@.take(i as int)).1;
        proof {
            lemma_line_split_step(c@, i as int);
        }
        if c[i] == '\n' {
            let t = trim_range(&c, start, i);
            proof {
                reveal(trimmed_line);
                lemma_kept_links_push(done, cur);
            }
            keep_nonempty(&t, &mut links);
            start = i + 1;
            i = i + 1;
            assert(c@.subrange(start as int, i as int) =~= Seq::<char>::empty());
        } else {
            i = i + 1;
            assert(c@.subrange(start as int, i as int) =~= cur.push(c@[i - 1]));
        }
    }
    assert(c@.take(i as int) =~= text@);
    let t = trim_range(&c, start, i);
    proof {
        reveal(trimmed_line);
        lemma_kept_links_push(line_split(text@).0, line_split(text@).1);
    }
    keep_nonempty(&t, &mut links);
    links
}

/// Texts joined with a line feed between them.
pub fn join_lines(parts: &Vec<String>) -> (r: String)
    ensures
        r@ == joined(string_views(parts@), "\n"@),
{
    let mut out: Vec<char> = Vec::new();
    let mut i: usize = 0;
    while i < parts.len()
        invariant
            i <= parts@.len(),
            out@ == joined(string_views(parts@.take(i as int)), "\n"@),
        decreases parts@.len() - i,
    {
        let ghost before = string_views(parts@.take(i as int));
        assert(string_views(parts@.take(i + 1)) =~= before.push(parts@[i as int]@));
        assert(before.push(parts@[i as int]@).drop_last() =~= before);
        if i > 0 {
            push_str(&mut out, "\n");
        }
        push_str(&mut out, parts[i].as_str());
        i = i + 1;
    }
    assert(parts@.take(i as int) =~= parts@);
    string_from_chars(&out)
}

/// The names a kind takes out of the dropped ones, in order.
pub open spec fn taken_files(t: UploadType, names: Seq<Seq<char>>) -> Seq<Seq<char>>
    decreases names.len(),
{
    if names.len() == 0 {
        Seq::empty()
    } else {
        let rest = taken_files(t, names.drop_last());
        if takes_file(t, names.last()) {
            rest.push(names.last())
        } else {
            rest
        }
    }
}

/// The link text a drop of files sets for a kind: the names it takes, one per line;
/// `None` (the text stays) when it takes none.
pub fn dropped_files_text(t: UploadType, names: &Vec<String>) -> (r: Option<String>)
    ensures
        match r {
            Some(x) => taken_files(t, string_views(names@)).len() > 0 && x@ == joined(
                taken_files(t, string_views(names@)),
                "\n"@,
            ),
            None => taken_files(t, string_views(names@)).len() == 0,
        },
{
    let mut kept: Vec<String> = Vec::new();
    let mut i: usize = 0;
    while i < names.len()
        invariant
            i <= names@.len(),
            string_views(kept@) == taken_files(t, string_views(names@.take(i as int))),
        decreases names@.len() - i,
    {
        let ghost before = string_views(names@.take(i as int));
        assert(string_views(names@.take(i + 1)) =~= before.push(names@[i as int]@));
        assert(before.push(names@[i as int]@).drop_last() =~= before);
        if accepts_file_name(t, names[i].as_str()) {
            let ghost k0 = kept@;
            kept.push(names[i].clone());
            assert(string_views(kept@) =~= string_views(k0).push(names@[i as int]@));
        }
        i = i + 1;
    }
    assert(names@.take(i as int) =~= names@);
    if kept.len() == 0 {
        None
    } else {
        Some(join_lines(&kept))
    }
}

/// The link text a pick of files sets: every picked name, one per line; `None` (the
/// text stays) when nothing was picked.
pub fn picked_files_text(names: &Vec<String>) -> (r: Option<String>)
    ensures
        match r {
            Some(x) => names@.len() > 0 && x@ == joined(string_views(names@), "\n"@),
            None => names@.len() == 0,
        },
{
    if names.len() == 0 {
        None
    } else {
        Some(join_lines(names))
    }
}

/// How the service refused one upload request.
#[derive(Clone, Copy, Debug, PartialEq, Eq, Structural)]
pub enum ApiFailure {
    HttpError(u16),
    RateLimitError,
    AuthenticationError,
    ValidationError,
    NotFoundError,
    ServerError,
    Other,
}

/// The status note shown with a refused upload.
pub open spec fn failure_status_text(f: ApiFailure) -> Seq<char> {
    match f {
        ApiFailure::HttpError(code) => "Status: "@ + nat_decimal(code as nat),
        ApiFailure::RateLimitError => "Status: 429"@,
        ApiFailure::AuthenticationError => "Status: 401"@,
        ApiFailure::ValidationError => "Status: 400"@,
        ApiFailure::NotFoundError => "Status: 404"@,
        ApiFailure::ServerError => "Status: 500"@,
        ApiFailure::Other => "Unknown error"@,
    }
}

/// The status note shown with a refused upload.
pub fn failure_status(f: ApiFailure) -> (r: String)
    ensures
        r@ == failure_status_text(f),
{
    match f {
        ApiFailure::HttpError(code) => {
            let mut out: Vec<char> = Vec::new();
            push_str(&mut out, "Status: ");
            push_decimal(&mut out, code as i64);
            string_from_chars(&out)
        },
        ApiFailure::RateLimitError => String::from_str("Status: 429"),
        ApiFailure::AuthenticationError => String::from_str("Status: 401"),
        ApiFailure::ValidationError => String::from_str("Status: 400"),
        ApiFailure::NotFoundError => String::from_str("Status: 404"),
        ApiFailure::ServerError => String::from_str("Status: 500"),
        ApiFailure::Other => String::from_str("Unknown error"),
    }
}

/// The error shown beside a refused link: the service's message, then the status note
/// in brackets.
pub open spec fn error_text(message: Seq<char>, f: ApiFailure) -> Seq<char> {
    message + " ("@ + failure_status_text(f) + ")"@
}

/// The error shown beside a refused link.
pub fn error_message(message: &str, f: ApiFailure) -> (r: String)
    ensures
        r@ == error_text(message@, f),
{
    let mut out: Vec<char> = Vec::new();
    push_str(&mut out, message);
    push_str(&mut out, " (");
    let status = failure_status(f);
    push_str(&mut out, status.as_str());
    push_str(&mut out, ")");
    string_from_chars(&out)
}

/// The upload form: the link text of each kind, the options sent with each upload, and
/// the progress and errors of the current run.
pub struct UploadForm {
    pub is_collapsed: bool,
    pub upload_type: UploadType,
    pub torrent_links: String,
    pub nzb_links: String,
    pub web_links: String,
    pub is_uploading: bool,
    pub upload_progress: usize,
    pub upload_total: usize,
    pub seed_duration: i32,
    pub allow_zip: bool,
    pub as_queued: bool,
    pub add_only_if_cached: bool,
    pub upload_errors: Vec<(String, String)>,
}

/// The link text the form holds for a kind.
pub open spec fn links_of(f: UploadForm, t: UploadType) -> Seq<char> {
    match t {
        UploadType::Torrents => f.torrent_links@,
        UploadType::NZB => f.nzb_links@,
        UploadType::WebLinks => f.web_links@,
    }
}

/// The views of an error list: each refused link with its error.
pub open spec fn error_views(v: Seq<(String, String)>) -> Seq<(Seq<char>, Seq<char>)> {
    v.map_values(|e: (String, String)| (e.0@, e.1@))
}

/// The form with the link text of one kind replaced and everything else kept.
pub open spec fn with_links(f: UploadForm, t: UploadType, text: Seq<char>, g: UploadForm) -> bool {
    &&& links_of(g, t) == text
    &&& forall|u: UploadType| u != t ==> links_of(g, u) == links_of(f, u)
    &&& g.is_collapsed == f.is_collapsed
    &&& g.upload_type == f.upload_type
    &&& g.is_uploading == f.is_uploading
    &&& g.upload_progress == f.upload_progress
    &&& g.upload_total == f.upload_total
    &&& g.seed_duration == f.seed_duration
    &&& g.allow_zip == f.allow_zip
    &&& g.as_queued == f.as_queued
    &&& g.add_only_if_cached == f.add_only_if_cached
    &&& error_views(g.upload_errors@) == error_views(f.upload_errors@)
}

impl UploadForm {
    /// A collapsed form on torrents, with empty texts, seeding for one day and every
    /// other option off.
    pub fn new() -> (f: UploadForm)
        ensures
            f.is_collapsed,
            f.upload_type == UploadType::Torrents,
            links_of(f, UploadType::Torrents) == Seq::<char>::empty(),
            links_of(f, UploadType::NZB) == Seq::<char>::empty(),
            links_of(f, UploadType::WebLinks) == Seq::<char>::empty(),
            !f.is_uploading,
            f.upload_progress == 0,
            f.upload_total == 0,
            f.seed_duration == 1,
            !f.allow_zip,
            !f.as_queued,
            !f.add_only_if_cached,
            f.upload_errors@.len() == 0,
    {
        UploadForm {
            is_collapsed: true,
            upload_type: UploadType::Torrents,
            torrent_links: String::new(),
            nzb_links: String::new(),
            web_links: String::new(),
            is_uploading: false,
            upload_progress: 0,
            upload_total: 0,
            seed_duration: 1,
            allow_zip: false,
            as_queued: false,
            add_only_if_cached: false,
            upload_errors: Vec::new(),
        }
    }

    /// The link text of a kind.
    pub fn links_text(&self, t: UploadType) -> (r: &String)
        ensures
            r@ == links_of(*self, t),
    {
        match t {
            UploadType::Torrents => &self.torrent_links,
            UploadType::NZB => &self.nzb_links,
            UploadType::WebLinks => &self.web_links,
        }
    }

    /// Replaces the link text of a kind.
    pub fn set_links_text(&mut self, t: UploadType, text: String)
        ensures
            with_links(*old(self), t, text@, *final(self)),
    {
        match t {
            UploadType::Torrents => {
                self.torrent_links = text;
            },
            UploadType::NZB => {
                self.nzb_links = text;
            },
            UploadType::WebLinks => {
                self.web_links = text;
            },
        }
    }

    /// The upload button is off while a run goes on, or when the chosen kind has no text.
    pub fn upload_disabled(&self) -> (r: bool)
        ensures
            r == (self.is_uploading || links_of(*self, self.upload_type).len() == 0),
    {
        self.is_uploading || self.links_text(self.upload_type).as_str().is_empty()
    }

    /// Starts a run: nothing while one goes on; else the errors and progress are reset,
    /// the links of the chosen kind are parsed and counted, and they are returned to be
    /// sent one by one, unless there are none, in which case the run ends at once.
    pub fn begin_upload(&mut self) -> (r: Option<Vec<String>>)
        ensures
            old(self).is_uploading ==> r is None && *final(self) == *old(self),
            !old(self).is_uploading ==> {
                let links = parsed_links(links_of(*old(self), old(self).upload_type));
                &&& final(self).upload_progress == 0
                &&& final(self).upload_total == links.len()
                &&& final(self).upload_errors@.len() == 0
                &&& final(self).is_uploading == (links.len() > 0)
                &&& match r {
                    Some(v) => links.len() > 0 && string_views(v@) == links,
                    None => links.len() == 0,
                }
                &&& final(self).is_collapsed == old(self).is_collapsed
                &&& final(self).upload_type == old(self).upload_type
                &&& forall|u: UploadType| links_of(*final(self), u) == links_of(*old(self), u)
                &&& final(self).seed_duration == old(self).seed_duration
                &&& final(self).allow_zip == old(self).allow_zip
                &&& final(self).as_queued == old(self).as_queued
                &&& final(self).add_only_if_cached == old(self).add_only_if_cached
            },
    {
        if self.is_uploading {
            return None;
        }
        self.is_uploading = true;
        self.upload_progress = 0;
        self.upload_errors = Vec::new();
        let links = parse_links(self.links_text(self.upload_type).as_str());
        self.upload_total = links.len();
        if links.len() == 0 {
            self.is_uploading = false;
            return None;
        }
        Some(links)
    }

    /// One link was accepted: one more is done.
    pub fn record_success(&mut self)
        requires
            old(self).upload_progress < usize::MAX,
        ensures
            final(self).upload_progress == old(self).upload_progress + 1,
            error_views(final(self).upload_errors@) == error_views(old(self).upload_errors@),
            final(self).is_uploading == old(self).is_uploading,
            final(self).upload_total == old(self).upload_total,
            forall|u: UploadType| links_of(*final(self), u) == links_of(*old(self), u),
    {
        self.upload_progress = self.upload_progress + 1;
    }

    /// One link was refused: one more is done, and the link is listed with its error.
    pub fn record_failure(&mut self, link: &str, message: &str, failure: ApiFailure)
        requires
            old(self).upload_progress < usize::MAX,
        ensures
            final(self).upload_progress == old(self).upload_progress + 1,
            error_views(final(self).upload_errors@) == error_views(old(self).upload_errors@).push(
                (link@, error_text(message@, failure)),
            ),
            final(self).is_uploading == old(self).is_uploading,
            final(self).upload_total == old(self).upload_total,
            forall|u: UploadType| links_of(*final(self), u) == links_of(*old(self), u),
    {
        let entry = (String::from_str(link), error_message(message, failure));
        self.upload_errors.push(entry);
        assert(error_views(self.upload_errors@) =~= error_views(old(self).upload_errors@).push(
            (link@, error_text(message@, failure)),
        ));
        self.upload_progress = self.upload_progress + 1;
    }

    /// Ends a run. When the links were sent (an API key was there) and none was refused,
    /// the text of the uploaded kind is emptied.
    pub fn finish_upload(&mut self, uploaded: UploadType, sent: bool)
        ensures
            !final(self).is_uploading,
            sent && old(self).upload_errors@.len() == 0 ==> links_of(*final(self), uploaded)
                == Seq::<char>::empty(),
            !(sent && old(self).upload_errors@.len() == 0) ==> links_of(*final(self), uploaded)
                == links_of(*old(self), uploaded),
            forall|u: UploadType| u != uploaded ==> links_of(*final(self), u) == links_of(*old(self), u),
            final(self).upload_progress == old(self).upload_progress,
            final(self).upload_total == old(self).upload_total,
            error_views(final(self).upload_errors@) == error_views(old(self).upload_errors@),
    {
        if sent && self.upload_errors.len() == 0 {
            self.set_links_text(uploaded, String::new());
        }
        self.is_uploading = false;
    }

    /// The progress line shown during a run.
    pub fn progress_text(&self) -> (r: String)
        ensures
            r@ == "Processing "@ + nat_decimal(self.upload_progress as nat) + " of "@ + nat_decimal(
                self.upload_total as nat,
            ),
    {
        let mut out: Vec<char> = Vec::new();
        push_str(&mut out, "Processing ");
        push_nat_decimal(&mut out, self.upload_progress as u64);
        push_str(&mut out, " of ");
        push_nat_decimal(&mut out, self.upload_total as u64);
        string_from_chars(&out)
    }

    /// The label of the upload button.
    pub fn button_label(&self) -> (r: &'static str)
        ensures
            r@ == if self.is_uploading {
                "Uploading..."@
            } else {
                "Upload"@
            },
    {
        if self.is_uploading {
            "Uploading..."
        } else {
            "Upload"
        }
    }
}

/// What one upload sends for one link: a magnet with the seeding options, an NZB link,
/// or a web link; each with the queueing and cache options of the form.
#[derive(Debug)]
pub enum UploadRequest {
    Torrent { magnet: String, seed: i32, allow_zip: bool, as_queued: bool, add_only_if_cached: bool },
    Usenet { link: String, as_queued: bool, add_only_if_cached: bool },
    Web { link: String, as_queued: bool, add_only_if_cached: bool },
}

impl UploadForm {
    /// The request sent for one link of a run of the given kind.
    pub fn request_for(&self, t: UploadType, link: &str) -> (r: UploadRequest)
        ensures
            match t {
                UploadType::Torrents => r matches UploadRequest::Torrent {
                    magnet,
                    seed,
                    allow_zip,
                    as_queued,
                    add_only_if_cached,
                } && magnet@ == link@ && seed == self.seed_duration && allow_zip == self.allow_zip
                    && as_queued == self.as_queued && add_only_if_cached
                    == self.add_only_if_cached,
                UploadType::NZB => r matches UploadRequest::Usenet {
                    link: l,
                    as_queued,
                    add_only_if_cached,
                } && l@ == link@ && as_queued == self.as_queued && add_only_if_cached
                    == self.add_only_if_cached,
                UploadType::WebLinks => r matches UploadRequest::Web {
                    link: l,
                    as_queued,
                    add_only_if_cached,
                } && l@ == link@ && as_queued == self.as_queued && add_only_if_cached
                    == self.add_only_if_cached,
            },
    {
        match t {
            UploadType::Torrents => UploadRequest::Torrent {
                magnet: String::from_str(link),
                seed: self.seed_duration,
                allow_zip: self.allow_zip,
                as_queued: self.as_queued,
                add_only_if_cached: self.add_only_if_cached,
            },
            UploadType::NZB => UploadRequest::Usenet {
                link: String::from_str(link),
                as_queued: self.as_queued,
                add_only_if_cached: self.add_only_if_cached,
            },
            UploadType::WebLinks => UploadRequest::Web {
                link: String::from_str(link),
                as_queued: self.as_queued,
                add_only_if_cached: self.add_only_if_cached,
            },
        }
    }

    /// Opens or closes the form.
    pub fn toggle_collapse(&mut self)
        ensures
            final(self).is_collapsed == !old(self).is_collapsed,
            final(self).upload_type == old(self).upload_type,
            final(self).is_uploading == old(self).is_uploading,
            forall|u: UploadType| links_of(*final(self), u) == links_of(*old(self), u),
    {
        self.is_collapsed = !self.is_collapsed;
    }
}

/// A link as the form keeps it: non-empty, with no white space at either end and no line
/// feed inside.
pub open spec fn clean_link(l: Seq<char>) -> bool {
    &&& l.len() > 0
    &&& !is_white_space(l[0])
    &&& !is_white_space(l.last())
    &&& forall|j: int| 0 <= j < l.len() ==> l[j] != '\n'
}

/// No line feed in `p`.
pub open spec fn no_line_feed(p: Seq<char>) -> bool {
    forall|j: int| 0 <= j < p.len() ==> p[j] != '\n'
}

proof fn lemma_line_split_no_line_feed(s: Seq<char>)
    ensures
        no_line_feed(line_split(s).1),
        forall|k: int|
            0 <= k < line_split(s).0.len() ==> no_line_feed(#[trigger] line_split(s).0[k]),
    decreases s.len(),
{
    if s.len() > 0 {
        lemma_line_split_no_line_feed(s.drop_last());
        let cur = line_split(s.drop_last()).1;
        if s.last() != '\n' {
            assert forall|j: int| 0 <= j < cur.push(s.last()).len() implies cur.push(
                s.last(),
            )[j] != '\n' by {
                if j < cur.len() {
                    assert(cur[j] != '\n');
                }
            }
        }
    }
}

proof fn lemma_first_non_white(p: Seq<char>, i: int)
    requires
        0 <= i < p.len(),
        !is_white_space(p[i]),
    ensures
        exists|m: int|
            0 <= m < p.len() && !is_white_space(p[m]) && (forall|j: int|
                0 <= j < m ==> is_white_space(#[trigger] p[j])),
    decreases i,
{
    if exists|j: int| 0 <= j < i && !is_white_space(#[trigger] p[j]) {
        let j = choose|j: int| 0 <= j < i && !is_white_space(#[trigger] p[j]);
        lemma_first_non_white(p, j);
    } else {
        assert(forall|j: int| 0 <= j < i ==> is_white_space(#[trigger] p[j]));
    }
}

proof fn lemma_last_non_white(p: Seq<char>, i: int)
    requires
        0 <= i < p.len(),
        !is_white_space(p[i]),
    ensures
        exists|e: int|
            0 <= e < p.len() && !is_white_space(p[e]) && (forall|j: int|
                e < j < p.len() ==> is_white_space(#[trigger] p[j])),
    decreases p.len() - i,
{
    if exists|j: int| i < j < p.len() && !is_white_space(#[trigger] p[j]) {
        let j = choose|j: int| i < j < p.len() && !is_white_space(#[trigger] p[j]);
        lemma_last_non_white(p, j);
    } else {
        assert(forall|j: int| i < j < p.len() ==> is_white_space(#[trigger] p[j]));
    }
}

proof fn lemma_trim_start(p: Seq<char>, w: int)
    requires
        0 <= w < p.len(),
        !is_white_space(p[w]),
    ensures
        0 <= trim_start_index(p) <= w,
        !is_white_space(p[trim_start_index(p)]),
{
    lemma_first_non_white(p, w);
    let a = trim_start_index(p);
    assert(0 <= a < p.len());
    assert(forall|j: int| 0 <= j < a ==> is_white_space(#[trigger] p[j]));
    assert(a <= w);
}

proof fn lemma_trim_end(p: Seq<char>, w: int)
    requires
        0 <= w < p.len(),
        !is_white_space(p[w]),
    ensures
        w < trim_end_index(p) <= p.len(),
        !is_white_space(p[trim_end_index(p) - 1]),
{
    lemma_last_non_white(p, w);
    let b = trim_end_index(p);
    assert(0 <= b - 1 < p.len());
    assert(forall|j: int| b - 1 < j < p.len() ==> is_white_space(#[trigger] p[j]));
    assert(b - 1 >= w);
}

proof fn lemma_subrange_clean(p: Seq<char>, a: int, b: int)
    requires
        0 <= a < b <= p.len(),
        !is_white_space(p[a]),
        !is_white_space(p[b - 1]),
        no_line_feed(p),
    ensures
        clean_link(p.subrange(a, b)),
{
    let t = p.subrange(a, b);
    assert(t[0] == p[a]);
    assert(t.last() == p[b - 1]);
    assert forall|j: int| 0 <= j < t.len() implies t[j] != '\n' by {
        assert(t[j] == p[a + j]);
    }
}

proof fn lemma_trimmed_line_clean(p: Seq<char>)
    requires
        no_line_feed(p),
        trimmed_line(p).len() > 0,
    ensures
        clean_link(trimmed_line(p)),
{
    reveal(trimmed_line);
    let a = trim_start_index(p);
    let b = trim_end_index(p);
    if exists|i: int| 0 <= i < p.len() && !is_white_space(#[trigger] p[i]) {
        let w = choose|i: int| 0 <= i < p.len() && !is_white_space(#[trigger] p[i]);
        lemma_trim_start(p, w);
        lemma_trim_end(p, w);
        lemma_subrange_clean(p, a, b);
    }
}

proof fn lemma_kept_links_clean(pieces: Seq<Seq<char>>)
    requires
        forall|k: int| 0 <= k < pieces.len() ==> no_line_feed(#[trigger] pieces[k]),
    ensures
        forall|k: int|
            0 <= k < kept_links(pieces).len() ==> clean_link(#[trigger] kept_links(pieces)[k]),
    decreases pieces.len(),
{
    if pieces.len() > 0 {
        let rest = pieces.drop_last();
        assert(forall|k: int| 0 <= k < rest.len() ==> rest[k] == pieces[k]);
        lemma_kept_links_clean(rest);
        assert(no_line_feed(pieces[pieces.len() - 1]));
        let r = kept_links(rest);
        if trimmed_line(pieces.last()).len() > 0 {
            lemma_trimmed_line_clean(pieces.last());
            let out = r.push(trimmed_line(pieces.last()));
            assert forall|k: int| 0 <= k < out.len() implies clean_link(#[trigger] out[k]) by {
                if k < r.len() {
                    assert(out[k] == r[k]);
                }
            }
        }
    }
}

/// Every link taken from a pasted text is non-empty, has no white space at either end
/// and holds no line feed.
pub proof fn lemma_parsed_links_clean(s: Seq<char>)
    ensures
        forall|k: int|
            0 <= k < parsed_links(s).len() ==> clean_link(#[trigger] parsed_links(s)[k]),
{
    lemma_line_split_no_line_feed(s);
    let ps = newline_pieces(s);
    assert forall|k: int| 0 <= k < ps.len() implies no_line_feed(#[trigger] ps[k]) by {
        if k < line_split(s).0.len() {
            assert(ps[k] == line_split(s).0[k]);
        }
    }
    lemma_kept_links_clean(ps);
}

} // verus!
