use vstd::prelude::*;

use vstd::string::StringExecFns;

use crate::strutil::str_eq;
use crate::strutil::u32_to_string;
use crate::types::CheckvistLocation;

verus! {

// The data the command-line application works with: commands, run
// outcomes, configuration with bookmarks, and terminal styling. The
// prompting, argument parsing and terminal output around these types
// is plumbing and lives outside the library; the decisions on plain
// values live here.

/// Application-level failures that are reported rather than handled.
#[derive(Debug, Clone, PartialEq)]
pub enum Error {
    /// An expected failure, written to the user as it is.
    Reportable(String),
    /// Content was to be read from a stdin pipe, but nothing was piped.
    MissingPipe,
    /// The user is not logged in.
    LoggedOut,
}

/// What a completed command run came to.
#[derive(Debug, PartialEq)]
pub enum RunType {
    Completed(String),
    Cancelled,
}

/// Where the content of a new task comes from.
#[derive(Debug, Clone, PartialEq)]
pub enum ContentSource {
    Stdin,
    Clipboard,
    Arg(String),
}

/// Where a new task is to be added.
#[derive(Debug, Clone, PartialEq)]
pub enum DestinationSource {
    Config,
    PromptUser,
    Bookmark(String),
}

/// The add-task command: what to add and where.
#[derive(Debug, Clone, PartialEq)]
pub struct AddTask {
    pub content_source: ContentSource,
    pub destination_source: DestinationSource,
}

impl AddTask {
    /// The default add: the given text goes to the configured list.
    pub fn from_string(s: String) -> (r: AddTask)
        ensures
            r.content_source == ContentSource::Arg(s),
            r.destination_source == DestinationSource::Config,
    {
        AddTask { content_source: ContentSource::Arg(s), destination_source: DestinationSource::Config }
    }

    /// The command will have to prompt the user (it asks to pick a list).
    pub fn prompts_user(&self) -> (r: bool)
        ensures
            r == (self.destination_source == DestinationSource::PromptUser),
    {
        match self.destination_source {
            DestinationSource::PromptUser => true,
            _ => false,
        }
    }
}

/// The add-bookmark command: the name the bookmark will get.
#[derive(Debug, Clone, PartialEq)]
pub struct AddBookmark {
    pub name: String,
}

/// The logout command.
#[derive(Debug, Clone, PartialEq)]
pub struct LogOut;

/// The status command.
#[derive(Debug, Clone, PartialEq)]
pub struct ShowStatus;

/// The list-sync command.
#[derive(Debug, PartialEq)]
pub struct Sync;

/// A flag-driven add command: content plus option switches.
#[derive(Debug, Clone, PartialEq)]
pub struct Add {
    pub task_content: Option<String>,
    pub choose_list: bool,
    pub from_clipboard: bool,
    pub from_stdin: bool,
}

impl Add {
    /// A new add action with a content string and all options off.
    pub fn new(task_content: &str) -> (r: Self)
        ensures
            r.task_content matches Some(c) && c@ == task_content@,
            !r.choose_list,
            !r.from_clipboard,
            !r.from_stdin,
    {
        Add {
            task_content: Some(String::from_str(task_content)),
            choose_list: false,
            from_clipboard: false,
            from_stdin: false,
        }
    }
}

/// How much the command run may talk and ask.
#[derive(Debug, Clone, PartialEq, Eq, Structural)]
pub enum InteractivityLevel {
    Silent,
    Normal,
    Verbose,
}

/// The parsed command line: one subcommand and the chattiness level.
#[derive(Debug, Clone, PartialEq)]
pub enum Command {
    AddToDefaultList(String),
    Add(AddTask),
    ShowStatus(ShowStatus),
    LogOut(LogOut),
    AddBookmark(AddBookmark),
    ShowUsage,
}

impl Command {
    /// The command a bare content argument means: add it to the
    /// default list.
    pub fn default(task_content: &str) -> (r: Command)
        ensures
            r matches Command::Add(a) && (a.destination_source == DestinationSource::Config && (
            a.content_source matches ContentSource::Arg(c) && c@ == task_content@)),
    {
        Command::Add(AddTask::from_string(String::from_str(task_content)))
    }
}

#[derive(Debug, Clone, PartialEq)]
pub struct Cli {
    pub interactivity_level: InteractivityLevel,
    pub subcommand: Command,
}

impl Cli {
    /// Refuse the one option pair that cannot work together: a silent
    /// run of an add that would have to prompt the user for a list.
    pub fn reject_q_and_l_flags(cli: &Cli) -> (r: bool)
        ensures
            r == !(match cli.subcommand {
                Command::Add(a) => a.destination_source == DestinationSource::PromptUser
                    && cli.interactivity_level == InteractivityLevel::Silent,
                _ => false,
            }),
    {
        match &cli.subcommand {
            Command::Add(add_action) => !(add_action.prompts_user() && cli.interactivity_level
                == InteractivityLevel::Silent),
            _ => true,
        }
    }
}

/// Why a run has no configuration to work with.
#[derive(Debug, Clone, PartialEq)]
pub enum ConfigAbsentError {
    UserCancellation,
    InteractionDisallowed,
}

/// A named pointer at a Checkvist location.
#[derive(Debug, Clone, PartialEq)]
pub struct Bookmark {
    pub name: String,
    pub location: CheckvistLocation,
}

impl Bookmark {
    /// The same bookmark under a new name.
    pub fn rename(self, name: &str) -> (r: Self)
        ensures
            r.name@ == name@,
            r.location == self.location,
    {
        Bookmark { name: String::from_str(name), location: self.location }
    }
}

/// Read a location from the path segments of a Checkvist URL:
/// `checklists/<list>` names a list, `checklists/<list>/tasks/<task>`
/// a task within it; anything else is no location.
pub open spec fn spec_location_of_segments(segs: Seq<Seq<char>>) -> Option<CheckvistLocation> {
    if segs.len() == 2 && segs[0] == "checklists"@ {
        match spec_parse_u32_str(segs[1]) {
            Some(list_id) => Some(CheckvistLocation { list_id, parent_task_id: None }),
            None => None,
        }
    } else if segs.len() == 4 && segs[0] == "checklists"@ && segs[2] == "tasks"@ {
        match (spec_parse_u32_str(segs[1]), spec_parse_u32_str(segs[3])) {
            (Some(list_id), Some(task_id)) => Some(
                CheckvistLocation { list_id, parent_task_id: Some(task_id) },
            ),
            _ => None,
        }
    } else {
        None
    }
}

/// What a run of decimal digit characters denotes, refused when empty,
/// holding a non-digit, or over `u32::MAX`.
pub open spec fn spec_parse_u32_str(s: Seq<char>) -> Option<u32> {
    if s.len() > 0 && s.len() <= 10 && (forall|i: int| 0 <= i < s.len() ==> '0' <= #[trigger] s[i]
        <= '9') && char_digits_val(s) <= u32::MAX {
        Some(char_digits_val(s) as u32)
    } else {
        None
    }
}

pub open spec fn char_digits_val(s: Seq<char>) -> int
    decreases s.len(),
{
    if s.len() == 0 {
        0
    } else {
        char_digits_val(s.drop_last()) * 10 + (s.last() as int - '0' as int)
    }
}

/// Parse a run of decimal digit characters.
pub fn parse_u32_str(s: &str) -> (r: Option<u32>)
    ensures
        r == spec_parse_u32_str(s@),
{
    let n = s.unicode_len();
    if n == 0 || n > 10 {
        return None;
    }
    let mut acc: u64 = 0;
    let mut i: usize = 0;
    while i < n
        invariant
            n == s@.len(),
            0 < n <= 10,
            i <= n,
            forall|k: int| 0 <= k < i ==> '0' <= #[trigger] s@[k] <= '9',
            acc == char_digits_val(s@.take(i as int)),
            acc <= 0x2540BE3FF,
        decreases n - i,
    {
        let c = s.get_char(i);
        if !('0' <= c && c <= '9') {
            return None;
        }
        proof {
            assert(s@.take(i + 1).drop_last() =~= s@.take(i as int));
            assert(s@.take(i + 1).last() == s@[i as int]);
            lemma_char_digits_bound(s@.take(i + 1));
        }
        acc = acc * 10 + ((c as u32) as u64 - 48);
        i = i + 1;
    }
    proof {
        assert(s@.take(n as int) =~= s@);
    }
    if acc > 0xFFFFFFFF {
        return None;
    }
    Some(acc as u32)
}

/// Digit runs of at most ten characters stay below `10^10`.
proof fn lemma_char_digits_bound(s: Seq<char>)
    requires
        forall|i: int| 0 <= i < s.len() ==> '0' <= #[trigger] s[i] <= '9',
        s.len() <= 10,
    ensures
        char_digits_val(s) <= 0x2540BE3FF,
    decreases s.len(),
{
    lemma_char_digits_pow(s, 10);
    crate::json::lemma_pow10_ten();
}

proof fn lemma_char_digits_pow(s: Seq<char>, n: int)
    requires
        forall|i: int| 0 <= i < s.len() ==> '0' <= #[trigger] s[i] <= '9',
        s.len() <= n,
        0 <= n,
    ensures
        char_digits_val(s) < crate::json::spec_pow10(n),
    decreases s.len(),
{
    crate::json::lemma_pow10_pos(n);
    if s.len() > 0 {
        lemma_char_digits_pow(s.drop_last(), n - 1);
    }
}

/// Read a bookmark location from URL path segments.
pub fn location_from_segments(segs: &Vec<String>) -> (r: Option<CheckvistLocation>)
    ensures
        ({
            let views = Seq::new(segs@.len(), |j: int| segs@[j]@);
            r == spec_location_of_segments(views)
        }),
{
    let ghost views = Seq::new(segs@.len(), |j: int| segs@[j]@);
    if segs.len() == 2 && str_eq(segs[0].as_str(), "checklists") {
        match parse_u32_str(segs[1].as_str()) {
            Some(list_id) => Some(CheckvistLocation { list_id, parent_task_id: None }),
            None => None,
        }
    } else if segs.len() == 4 && str_eq(segs[0].as_str(), "checklists") && str_eq(segs[2].as_str(), "tasks") {
        match (parse_u32_str(segs[1].as_str()), parse_u32_str(segs[3].as_str())) {
            (Some(list_id), Some(task_id)) => Some(
                CheckvistLocation { list_id, parent_task_id: Some(task_id) },
            ),
            _ => None,
        }
    } else {
        None
    }
}

/// The application's configuration: the default list and any bookmarks.
#[derive(Debug, Clone, PartialEq)]
pub struct Config {
    pub list_id: u32,
    pub list_name: String,
    pub bookmarks: Option<Vec<Bookmark>>,
}

pub open spec fn spec_bookmarks(c: Config) -> Seq<Bookmark> {
    match c.bookmarks {
        Some(v) => v@,
        None => Seq::<Bookmark>::empty(),
    }
}

impl Config {
    /// Index of the first bookmark with this name.
    pub fn find_bookmark_by_name(&self, name: &str) -> (r: Option<usize>)
        ensures
            match r {
                Some(i) => i < spec_bookmarks(*self).len() && spec_bookmarks(*self)[i as int].name@
                    == name@ && forall|j: int|
                    0 <= j < i ==> spec_bookmarks(*self)[j].name@ != name@,
                None => forall|j: int|
                    0 <= j < spec_bookmarks(*self).len() ==> spec_bookmarks(*self)[j].name@
                        != name@,
            },
    {
        match &self.bookmarks {
            None => None,
            Some(bookmarks) => {
                assert(spec_bookmarks(*self) == bookmarks@);
                let n = bookmarks.len();
                let mut i: usize = 0;
                while i < n
                    invariant
                        spec_bookmarks(*self) == bookmarks@,
                        n == bookmarks@.len(),
                        i <= n,
                        forall|j: int| 0 <= j < i ==> bookmarks@[j].name@ != name@,
                    decreases n - i,
                {
                    if str_eq(bookmarks[i].name.as_str(), name) {
                        return Some(i);
                    }
                    i = i + 1;
                }
                None
            },
        }
    }

    /// Index of the first bookmark at this location.
    pub fn find_bookmark_by_location(&self, location: &CheckvistLocation) -> (r: Option<usize>)
        ensures
            match r {
                Some(i) => i < spec_bookmarks(*self).len() && spec_bookmarks(
                    *self,
                )[i as int].location == *location && forall|j: int|
                    0 <= j < i ==> spec_bookmarks(*self)[j].location != *location,
                None => forall|j: int|
                    0 <= j < spec_bookmarks(*self).len() ==> spec_bookmarks(*self)[j].location
                        != *location,
            },
    {
        match &self.bookmarks {
            None => None,
            Some(bookmarks) => {
                assert(spec_bookmarks(*self) == bookmarks@);
                let n = bookmarks.len();
                let mut i: usize = 0;
                while i < n
                    invariant
                        spec_bookmarks(*self) == bookmarks@,
                        n == bookmarks@.len(),
                        i <= n,
                        forall|j: int| 0 <= j < i ==> bookmarks@[j].location != *location,
                    decreases n - i,
                {
                    if locations_eq(&bookmarks[i].location, location) {
                        return Some(i);
                    }
                    i = i + 1;
                }
                None
            },
        }
    }

    /// The first bookmark with this name, if any.
    pub fn bookmark(&self, name: &str) -> (r: Option<Bookmark>)
        ensures
            match r {
                Some(b) => exists|i: int|
                    0 <= i < spec_bookmarks(*self).len() && #[trigger] spec_bookmarks(*self)[i]
                        == b && b.name@ == name@,
                None => forall|j: int|
                    0 <= j < spec_bookmarks(*self).len() ==> spec_bookmarks(*self)[j].name@
                        != name@,
            },
    {
        match self.find_bookmark_by_name(name) {
            None => None,
            Some(i) => {
                match &self.bookmarks {
                    Some(bookmarks) => {
                        let bm = &bookmarks[i];
                        Some(
                            Bookmark {
                                name: bm.name.clone(),
                                location: CheckvistLocation {
                                    list_id: bm.location.list_id,
                                    parent_task_id: bm.location.parent_task_id,
                                },
                            },
                        )
                    },
                    None => None,
                }
            },
        }
    }

    /// Add a bookmark. One with the same name, or failing that the
    /// same location, is replaced in place when `replace` is set and
    /// refused otherwise; a fresh bookmark is appended.
    pub fn add_bookmark(&mut self, bookmark: Bookmark, replace: bool) -> (r: Result<(), Error>)
        ensures
            match r {
                Ok(_) => spec_bookmarks(*final(self)) == spec_bookmarks(*old(self)).push(bookmark)
                    || exists|i: int|
                    0 <= i < spec_bookmarks(*old(self)).len() && spec_bookmarks(*final(self))
                        == #[trigger] spec_bookmarks(*old(self)).update(i, bookmark),
                Err(_) => !replace && spec_bookmarks(*final(self)) == spec_bookmarks(*old(self)),
            },
            final(self).list_id == old(self).list_id,
            final(self).list_name == old(self).list_name,
    {
        let existing = match self.find_bookmark_by_name(bookmark.name.as_str()) {
            Some(i) => Some(i),
            None => self.find_bookmark_by_location(&bookmark.location),
        };
        if self.bookmarks.is_none() {
            self.bookmarks = Some(Vec::new());
        }
        let bookmarks = match &mut self.bookmarks {
            Some(b) => b,
            None => {
                proof {
                    assert(false);
                }
                return Err(Error::Reportable(String::from_str("no bookmarks")));
            },
        };
        match (existing, replace) {
            (Some(_), false) => Err(
                Error::Reportable(
                    String::from_str("Tried to replace an existing bookmark, with 'replace' false"),
                ),
            ),
            (Some(i), true) => {
                if i < bookmarks.len() {
                    let ghost bm = bookmark;
                    bookmarks.set(i, bookmark);
                    proof {
                        assert(spec_bookmarks(*self) == spec_bookmarks(*old(self)).update(
                            i as int,
                            bm,
                        ));
                    }
                    Ok(())
                } else {
                    proof {
                        assert(false);
                    }
                    Err(Error::Reportable(String::from_str("no such bookmark")))
                }
            },
            (None, _) => {
                bookmarks.push(bookmark);
                Ok(())
            },
        }
    }
}

fn locations_eq(a: &CheckvistLocation, b: &CheckvistLocation) -> (r: bool)
    ensures
        r == (*a == *b),
{
    a.list_id == b.list_id && match (a.parent_task_id, b.parent_task_id) {
        (None, None) => true,
        (Some(x), Some(y)) => x == y,
        _ => false,
    }
}

/// Which standard stream styled output goes to.
#[derive(Debug, Clone, PartialEq)]
pub enum StreamKind {
    Stderr,
    Stdout,
}

/// The styles the application prints with.
#[derive(Debug, Clone, PartialEq)]
pub enum Style {
    Normal,
    Error,
    TaskContent,
    ListName,
    Warning,
    Link,
}

/// One styled run of output text.
#[derive(Debug, Clone, PartialEq)]
pub struct Chunk {
    pub content: String,
    pub kind: Style,
}

impl Chunk {
    pub fn new(content: String, kind: Style) -> (r: Self)
        ensures
            r.content == content,
            r.kind == kind,
    {
        Chunk { content, kind }
    }

    /// Whether this chunk prints bold: the attention-drawing styles do.
    pub fn is_bold(&self) -> (r: bool)
        ensures
            r == (self.kind == Style::TaskContent || self.kind == Style::Error || self.kind
                == Style::ListName || self.kind == Style::Warning),
    {
        match self.kind {
            Style::TaskContent => true,
            Style::Error => true,
            Style::ListName => true,
            Style::Warning => true,
            _ => false,
        }
    }
}

/// The runtime surroundings of one command run, gathered by the
/// application: configuration, paths and credentials, as plain values.
#[derive(Debug, PartialEq)]
pub struct Context {
    pub config: Result<Config, ConfigAbsentError>,
    pub config_file_path: String,
    pub allow_interaction: bool,
    pub api_token: Option<String>,
    pub checkvist_base_url: String,
    pub keychain_service_name: String,
}

/// The header every status report begins with.
pub open spec fn status_header() -> Seq<char> {
    "\n    - logged in to Checkvist: \t"@
}

impl ShowStatus {
    /// The status report: it opens with the login header, then whether
    /// a token is held, the default list name, and the configuration's
    /// bookmarks.
    pub fn get_status(&self, context: &Context) -> (r: String)
        ensures
            r@.len() >= status_header().len(),
            r@.subrange(0, status_header().len() as int) == status_header(),
    {
        let mut tail = String::new();
        match &context.api_token {
            Some(_) => tail.append("yes"),
            None => tail.append("no"),
        }
        tail.append("\n    - default list: \t\t");
        match &context.config {
            Ok(config) => {
                tail.append(config.list_name.as_str());
                tail.append("\n");
                match &config.bookmarks {
                    Some(bookmarks) => {
                        tail.append("    - bookmarks (");
                        let count = bookmarks.len();
                        if count <= 0xFFFFFFFF {
                            let c32 = count as u32;
                            let cs = u32_to_string(c32);
                            tail.append(cs.as_str());
                        }
                        tail.append("):\t\t");
                        let n = bookmarks.len();
                        let mut i: usize = 0;
                        while i < n
                            invariant
                                n == bookmarks@.len(),
                                i <= n,
                            decreases n - i,
                        {
                            if i > 0 {
                                tail.append(", ");
                            }
                            tail.append(bookmarks[i].name.as_str());
                            i = i + 1;
                        }
                    },
                    None => tail.append("    - bookmarks: \t\tnone"),
                }
            },
            Err(_) => {
                tail.append("none");
                tail.append("\n    - bookmarks:\t\tnone");
            },
        }
        tail.append("\n");
        let mut status_text = String::from_str("\n    - logged in to Checkvist: \t");
        status_text.append(tail.as_str());
        assert(status_text@.subrange(0, status_header().len() as int) =~= status_header());
        status_text
    }
}

} // verus!
