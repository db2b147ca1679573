//! The front-matter header of a post file.
//!
//! The header is a block of `key: value` lines. Recognized keys are
//! `title`, `date`, `subtitle`, `tags`, `excerpt` and `reading_time`;
//! unknown keys are ignored and a later occurrence of a key overrides
//! an earlier one. Values may be wrapped in single or double quotes.
//! `date` must be a real calendar day written `YYYY-MM-DD`, `tags` a
//! bracketed, comma-separated list, and `reading_time` a decimal
//! number. `title`, `date`, `tags`, `excerpt` and `reading_time` are
//! required; `subtitle` is optional.
use vstd::prelude::*;

verus! {

use vstd::string::StrSliceExecFns;
use vstd::string::StringExecFns;
use crate::date::Date;
use crate::date::is_date_str;
use crate::date::spec_date_of;
use crate::date::parse_date;
use crate::text::all_digits;
use crate::text::first_at;
use crate::text::lemma_first_at_is;
use crate::text::parse_u32;
use crate::text::spec_split;
use crate::text::spec_trim;
use crate::text::spec_unquote;
use crate::text::split_char;
use crate::text::str_eq;
use crate::text::str_to_nat;
use crate::text::trim_str;
use crate::text::unquote;

/// A front-matter field.
#[derive(Clone, Copy, Debug, PartialEq, Eq, Structural)]
pub enum Field {
    Title,
    Date,
    Subtitle,
    Tags,
    Excerpt,
    ReadingTime,
}

/// Why a post file could not be loaded.
#[derive(Clone, Copy, Debug, PartialEq, Eq, Structural)]
pub enum LoadError {
    /// The file does not begin with a front-matter block.
    MissingFrontMatter,
    /// A header line is neither blank nor of the form `key: value`.
    MalformedLine,
    /// A required field never appears in the header.
    MissingField(Field),
    /// A field appears but its value cannot be read.
    InvalidValue(Field),
}

pub open spec fn spec_field_name(f: Field) -> Seq<char> {
    match f {
        Field::Title => "title"@,
        Field::Date => "date"@,
        Field::Subtitle => "subtitle"@,
        Field::Tags => "tags"@,
        Field::Excerpt => "excerpt"@,
        Field::ReadingTime => "reading_time"@,
    }
}

pub fn field_name(f: Field) -> (r: &'static str)
    ensures
        r@ == spec_field_name(f),
{
    match f {
        Field::Title => "title",
        Field::Date => "date",
        Field::Subtitle => "subtitle",
        Field::Tags => "tags",
        Field::Excerpt => "excerpt",
        Field::ReadingTime => "reading_time",
    }
}

pub open spec fn spec_error_message(e: LoadError) -> Seq<char> {
    match e {
        LoadError::MissingFrontMatter => "no front matter found"@,
        LoadError::MalformedLine => "malformed front-matter line"@,
        LoadError::MissingField(f) => "missing front-matter field: "@ + spec_field_name(f),
        LoadError::InvalidValue(f) => "invalid front-matter value: "@ + spec_field_name(f),
    }
}

impl LoadError {
    /// A short description of the error.
    pub fn message(&self) -> (r: String)
        ensures
            r@ == spec_error_message(*self),
    {
        match self {
            LoadError::MissingFrontMatter => String::from_str("no front matter found"),
            LoadError::MalformedLine => String::from_str("malformed front-matter line"),
            LoadError::MissingField(f) => String::from_str("missing front-matter field: ").concat(
                field_name(*f),
            ),
            LoadError::InvalidValue(f) => String::from_str("invalid front-matter value: ").concat(
                field_name(*f),
            ),
        }
    }
}

/// The fields of a parsed header, at the specification level.
pub struct FrontMatterModel {
    pub title: Seq<char>,
    pub date: Date,
    pub subtitle: Option<Seq<char>>,
    pub tags: Seq<Seq<char>>,
    pub excerpt: Seq<char>,
    pub reading_time: u32,
}

/// The fields seen so far while reading header lines.
pub struct FmStateModel {
    pub title: Option<Seq<char>>,
    pub date: Option<Date>,
    pub subtitle: Option<Seq<char>>,
    pub tags: Option<Seq<Seq<char>>>,
    pub excerpt: Option<Seq<char>>,
    pub reading_time: Option<u32>,
}

pub open spec fn empty_state() -> FmStateModel {
    FmStateModel {
        title: None,
        date: None,
        subtitle: None,
        tags: None,
        excerpt: None,
        reading_time: None,
    }
}

/// The items between the brackets of a tag list, each trimmed and
/// unquoted.
pub open spec fn spec_tag_items(inner: Seq<char>) -> Seq<Seq<char>> {
    spec_split(inner, ',').map_values(|t: Seq<char>| spec_unquote(spec_trim(t)))
}

/// A tag list value: `[...]` around comma-separated, optionally quoted,
/// nonempty items. Blank inside the brackets means no tags.
pub open spec fn spec_parse_tags(v: Seq<char>) -> Option<Seq<Seq<char>>> {
    if v.len() >= 2 && v[0] == '[' && v.last() == ']' {
        let inner = v.subrange(1, v.len() - 1);
        if spec_trim(inner).len() == 0 {
            Some(Seq::empty())
        } else {
            let items = spec_tag_items(inner);
            if forall|j: int| 0 <= j < items.len() ==> #[trigger] items[j].len() > 0 {
                Some(items)
            } else {
                None
            }
        }
    } else {
        None
    }
}

pub fn parse_tags(v: &str) -> (r: Option<Vec<String>>)
    ensures
        r is Some <==> spec_parse_tags(v@) is Some,
        r is Some ==> r->0.deep_view() == spec_parse_tags(v@)->0,
{
    let n: usize = v.unicode_len();
    if n < 2 {
        return None;
    }
    if v.get_char(0) != '[' || v.get_char(n - 1) != ']' {
        return None;
    }
    let inner = v.substring_char(1, n - 1);
    if trim_str(inner).unicode_len() == 0 {
        let empty: Vec<String> = Vec::new();
        proof {
            assert(empty.deep_view() =~= Seq::<Seq<char>>::empty());
        }
        return Some(empty);
    }
    let parts = split_char(inner, ',');
    let ghost items = spec_tag_items(inner@);
    let mut out: Vec<String> = Vec::new();
    let mut i: usize = 0;
    while i < parts.len()
        invariant
            n == v@.len(),
            v@.len() >= 2,
            v@[0] == '[',
            v@.last() == ']',
            inner@ == v@.subrange(1, v@.len() - 1),
            spec_trim(inner@).len() != 0,
            parts.deep_view() == spec_split(inner@, ','),
            items == spec_tag_items(inner@),
            i <= parts.len(),
            parts.deep_view().len() == parts.len(),
            out.deep_view() =~= items.take(i as int),
            forall|j: int| 0 <= j < i ==> #[trigger] items[j].len() > 0,
        decreases parts.len() - i,
    {
        let item = unquote(trim_str(parts[i].as_str()));
        proof {
            assert(parts.deep_view()[i as int] == parts@[i as int]@);
            assert(items[i as int] == spec_unquote(spec_trim(parts.deep_view()[i as int])));
        }
        if item.unicode_len() == 0 {
            proof {
                assert(items[i as int].len() == 0);
                assert(!(forall|j: int| 0 <= j < items.len() ==> #[trigger] items[j].len() > 0));
            }
            return None;
        }
        let ghost pre = out.deep_view();
        out.push(item.to_owned());
        proof {
            assert(out.deep_view() =~= pre.push(items[i as int]));
            assert(items.take(i as int + 1) =~= pre.push(items[i as int]));
        }
        i = i + 1;
    }
    proof {
        assert(items.take(parts.len() as int) =~= items);
    }
    Some(out)
}

/// The effect of one header line on the fields seen so far.
pub open spec fn spec_apply_line(st: FmStateModel, l: Seq<char>) -> Result<
    FmStateModel,
    LoadError,
> {
    if spec_trim(l).len() == 0 {
        Ok(st)
    } else {
        let i = first_at(l, 0, ':');
        if i >= l.len() {
            Err(LoadError::MalformedLine)
        } else {
            let key = l.subrange(0, i);
            let v = spec_trim(l.subrange(i + 1, l.len() as int));
            if key == "title"@ {
                let t = spec_unquote(v);
                if t.len() == 0 {
                    Err(LoadError::InvalidValue(Field::Title))
                } else {
                    Ok(FmStateModel { title: Some(t), ..st })
                }
            } else if key == "date"@ {
                let u = spec_unquote(v);
                if is_date_str(u) {
                    Ok(FmStateModel { date: Some(spec_date_of(u)), ..st })
                } else {
                    Err(LoadError::InvalidValue(Field::Date))
                }
            } else if key == "subtitle"@ {
                let t = spec_unquote(v);
                if t.len() == 0 {
                    Ok(FmStateModel { subtitle: None, ..st })
                } else {
                    Ok(FmStateModel { subtitle: Some(t), ..st })
                }
            } else if key == "tags"@ {
                match spec_parse_tags(v) {
                    Some(ts) => Ok(FmStateModel { tags: Some(ts), ..st }),
                    None => Err(LoadError::InvalidValue(Field::Tags)),
                }
            } else if key == "excerpt"@ {
                let t = spec_unquote(v);
                if t.len() == 0 {
                    Err(LoadError::InvalidValue(Field::Excerpt))
                } else {
                    Ok(FmStateModel { excerpt: Some(t), ..st })
                }
            } else if key == "reading_time"@ {
                if v.len() > 0 && all_digits(v) && str_to_nat(v) <= u32::MAX {
                    Ok(FmStateModel { reading_time: Some(str_to_nat(v) as u32), ..st })
                } else {
                    Err(LoadError::InvalidValue(Field::ReadingTime))
                }
            } else {
                Ok(st)
            }
        }
    }
}

/// The effect of a whole header, line by line; the first bad line wins.
pub open spec fn spec_apply_lines(st: FmStateModel, lines: Seq<Seq<char>>) -> Result<
    FmStateModel,
    LoadError,
>
    decreases lines.len(),
{
    if lines.len() == 0 {
        Ok(st)
    } else {
        match spec_apply_line(st, lines[0]) {
            Err(e) => Err(e),
            Ok(st2) => spec_apply_lines(st2, lines.drop_first()),
        }
    }
}

/// The required fields, checked in a fixed order.
pub open spec fn spec_finish(st: FmStateModel) -> Result<FrontMatterModel, LoadError> {
    if st.title is None {
        Err(LoadError::MissingField(Field::Title))
    } else if st.date is None {
        Err(LoadError::MissingField(Field::Date))
    } else if st.tags is None {
        Err(LoadError::MissingField(Field::Tags))
    } else if st.excerpt is None {
        Err(LoadError::MissingField(Field::Excerpt))
    } else if st.reading_time is None {
        Err(LoadError::MissingField(Field::ReadingTime))
    } else {
        Ok(
            FrontMatterModel {
                title: st.title->0,
                date: st.date->0,
                subtitle: st.subtitle,
                tags: st.tags->0,
                excerpt: st.excerpt->0,
                reading_time: st.reading_time->0,
            },
        )
    }
}

/// What a header means: the fields its lines leave behind, if every
/// line reads and every required field is present.
pub open spec fn spec_parse_front_matter(lines: Seq<Seq<char>>) -> Result<
    FrontMatterModel,
    LoadError,
> {
    match spec_apply_lines(empty_state(), lines) {
        Err(e) => Err(e),
        Ok(st) => spec_finish(st),
    }
}

/// The key of a header line, when the line is neither blank nor
/// malformed.
pub open spec fn spec_line_key(l: Seq<char>) -> Option<Seq<char>> {
    if spec_trim(l).len() == 0 {
        None
    } else {
        let i = first_at(l, 0, ':');
        if i >= l.len() {
            None
        } else {
            Some(l.subrange(0, i))
        }
    }
}

/// `f` has not been seen yet.
pub open spec fn state_field_missing(st: FmStateModel, f: Field) -> bool {
    match f {
        Field::Title => st.title is None,
        Field::Date => st.date is None,
        Field::Subtitle => st.subtitle is None,
        Field::Tags => st.tags is None,
        Field::Excerpt => st.excerpt is None,
        Field::ReadingTime => st.reading_time is None,
    }
}

proof fn lemma_apply_lines_field_none(st: FmStateModel, lines: Seq<Seq<char>>, f: Field)
    requires
        state_field_missing(st, f),
        forall|k: int| 0 <= k < lines.len() ==> spec_line_key(#[trigger] lines[k]) != Some(
            spec_field_name(f),
        ),
    ensures
        spec_apply_lines(st, lines) is Ok ==> state_field_missing(
            spec_apply_lines(st, lines)->Ok_0,
            f,
        ),
    decreases lines.len(),
{
    if lines.len() > 0 {
        match spec_apply_line(st, lines[0]) {
            Ok(st2) => {
                assert(spec_line_key(lines[0]) != Some(spec_field_name(f)));
                assert(state_field_missing(st2, f));
                lemma_apply_lines_field_none(st2, lines.drop_first(), f);
            },
            Err(_) => {},
        }
    }
}

/// Law: a header that never sets a required field does not parse; no
/// post comes out of it.
pub proof fn lemma_missing_field_fails(lines: Seq<Seq<char>>, f: Field)
    requires
        f != Field::Subtitle,
        forall|k: int| 0 <= k < lines.len() ==> spec_line_key(#[trigger] lines[k]) != Some(
            spec_field_name(f),
        ),
    ensures
        spec_parse_front_matter(lines) is Err,
{
    lemma_apply_lines_field_none(empty_state(), lines, f);
}

/// Every date a header can leave behind came from a valid date string,
/// so it is a real day of the calendar.
pub proof fn lemma_apply_lines_date_wf(st: FmStateModel, lines: Seq<Seq<char>>)
    requires
        st.date is Some ==> st.date->0.wf(),
    ensures
        spec_apply_lines(st, lines) is Ok ==> ((spec_apply_lines(st, lines)->Ok_0).date is Some
            ==> (spec_apply_lines(st, lines)->Ok_0).date->0.wf()),
    decreases lines.len(),
{
    if lines.len() > 0 {
        match spec_apply_line(st, lines[0]) {
            Ok(st2) => {
                assert(st2.date is Some ==> st2.date->0.wf());
                lemma_apply_lines_date_wf(st2, lines.drop_first());
            },
            Err(_) => {},
        }
    }
}

/// The date of a parsed header is a real day of the calendar.
pub proof fn lemma_front_matter_date_wf(lines: Seq<Seq<char>>)
    ensures
        spec_parse_front_matter(lines) is Ok ==> spec_parse_front_matter(lines)->Ok_0.date.wf(),
{
    lemma_apply_lines_date_wf(empty_state(), lines);
}

/// A parsed front-matter header.
pub struct FrontMatter {
    pub title: String,
    pub date: Date,
    pub subtitle: Option<String>,
    pub tags: Vec<String>,
    pub excerpt: String,
    pub reading_time: u32,
}

impl FrontMatter {
    pub open spec fn model(&self) -> FrontMatterModel {
        FrontMatterModel {
            title: self.title@,
            date: self.date,
            subtitle: match self.subtitle {
                Some(s) => Some(s@),
                None => None,
            },
            tags: self.tags.deep_view(),
            excerpt: self.excerpt@,
            reading_time: self.reading_time,
        }
    }
}

struct FmState {
    title: Option<String>,
    date: Option<Date>,
    subtitle: Option<String>,
    tags: Option<Vec<String>>,
    excerpt: Option<String>,
    reading_time: Option<u32>,
}

impl FmState {
    spec fn model(&self) -> FmStateModel {
        FmStateModel {
            title: match self.title {
                Some(s) => Some(s@),
                None => None,
            },
            date: self.date,
            subtitle: match self.subtitle {
                Some(s) => Some(s@),
                None => None,
            },
            tags: match self.tags {
                Some(ts) => Some(ts.deep_view()),
                None => None,
            },
            excerpt: match self.excerpt {
                Some(s) => Some(s@),
                None => None,
            },
            reading_time: self.reading_time,
        }
    }
}

fn apply_line(st: &mut FmState, line: &str) -> (r: Result<(), LoadError>)
    ensures
        r is Ok ==> spec_apply_line(old(st).model(), line@) == Ok::<FmStateModel, LoadError>(
            final(st).model(),
        ),
        r is Err ==> spec_apply_line(old(st).model(), line@) == Err::<FmStateModel, LoadError>(
            r->Err_0,
        ),
{
    if trim_str(line).unicode_len() == 0 {
        return Ok(());
    }
    let n: usize = line.unicode_len();
    let mut i: usize = 0;
    while i < n && line.get_char(i) != ':'
        invariant
            n == line@.len(),
            i <= n,
            forall|j: int| 0 <= j < i ==> line@[j] != ':',
        decreases n - i,
    {
        i = i + 1;
    }
    proof {
        lemma_first_at_is(line@, 0, ':', i as int);
    }
    if i == n {
        return Err(LoadError::MalformedLine);
    }
    let key = line.substring_char(0, i);
    let v = trim_str(line.substring_char(i + 1, n));
    if str_eq(key, "title") {
        let t = unquote(v);
        if t.unicode_len() == 0 {
            Err(LoadError::InvalidValue(Field::Title))
        } else {
            st.title = Some(t.to_owned());
            Ok(())
        }
    } else if str_eq(key, "date") {
        let u = unquote(v);
        match parse_date(u) {
            Some(d) => {
                st.date = Some(d);
                Ok(())
            },
            None => Err(LoadError::InvalidValue(Field::Date)),
        }
    } else if str_eq(key, "subtitle") {
        let t = unquote(v);
        if t.unicode_len() == 0 {
            st.subtitle = None;
            Ok(())
        } else {
            st.subtitle = Some(t.to_owned());
            Ok(())
        }
    } else if str_eq(key, "tags") {
        match parse_tags(v) {
            Some(ts) => {
                st.tags = Some(ts);
                Ok(())
            },
            None => Err(LoadError::InvalidValue(Field::Tags)),
        }
    } else if str_eq(key, "excerpt") {
        let t = unquote(v);
        if t.unicode_len() == 0 {
            Err(LoadError::InvalidValue(Field::Excerpt))
        } else {
            st.excerpt = Some(t.to_owned());
            Ok(())
        }
    } else if str_eq(key, "reading_time") {
        match parse_u32(v) {
            Some(x) => {
                st.reading_time = Some(x);
                Ok(())
            },
            None => Err(LoadError::InvalidValue(Field::ReadingTime)),
        }
    } else {
        Ok(())
    }
}

/// Read a header from its lines.
pub fn parse_front_matter(lines: &Vec<String>) -> (r: Result<FrontMatter, LoadError>)
    ensures
        r is Ok ==> spec_parse_front_matter(lines.deep_view()) == Ok::<
            FrontMatterModel,
            LoadError,
        >(r->Ok_0.model()),
        r is Err ==> spec_parse_front_matter(lines.deep_view()) == Err::<
            FrontMatterModel,
            LoadError,
        >(r->Err_0),
{
    let mut st = FmState {
        title: None,
        date: None,
        subtitle: None,
        tags: None,
        excerpt: None,
        reading_time: None,
    };
    proof {
        assert(lines.deep_view().skip(0) =~= lines.deep_view());
        assert(st.model() == empty_state());
    }
    let mut i: usize = 0;
    while i < lines.len()
        invariant
            i <= lines.len(),
            lines.deep_view().len() == lines.len(),
            spec_apply_lines(empty_state(), lines.deep_view()) == spec_apply_lines(
                st.model(),
                lines.deep_view().skip(i as int),
            ),
        decreases lines.len() - i,
    {
        let ghost pre = st.model();
        let ghost rest = lines.deep_view().skip(i as int);
        proof {
            assert(rest[0] == lines.deep_view()[i as int]);
            assert(rest.drop_first() =~= lines.deep_view().skip(i as int + 1));
        }
        match apply_line(&mut st, lines[i].as_str()) {
            Ok(()) => {
                proof {
                    assert(spec_apply_lines(pre, rest) == spec_apply_lines(
                        st.model(),
                        lines.deep_view().skip(i as int + 1),
                    ));
                }
            },
            Err(e) => {
                proof {
                    assert(spec_apply_lines(pre, rest) == Err::<FmStateModel, LoadError>(e));
                }
                return Err(e);
            },
        }
        i = i + 1;
    }
    proof {
        assert(lines.deep_view().skip(lines.len() as int) =~= Seq::<Seq<char>>::empty());
    }
    let FmState { title, date, subtitle, tags, excerpt, reading_time } = st;
    let title = match title {
        Some(t) => t,
        None => {
            return Err(LoadError::MissingField(Field::Title));
        },
    };
    let date = match date {
        Some(d) => d,
        None => {
            return Err(LoadError::MissingField(Field::Date));
        },
    };
    let tags = match tags {
        Some(t) => t,
        None => {
            return Err(LoadError::MissingField(Field::Tags));
        },
    };
    let excerpt = match excerpt {
        Some(t) => t,
        None => {
            return Err(LoadError::MissingField(Field::Excerpt));
        },
    };
    let reading_time = match reading_time {
        Some(t) => t,
        None => {
            return Err(LoadError::MissingField(Field::ReadingTime));
        },
    };
    Ok(FrontMatter { title, date, subtitle, tags, excerpt, reading_time })
}

} // verus!
