//! Loading one post from the text of its file.
//!
//! A post file begins with a line `---`, followed by front-matter
//! lines up to the next line `---`; the rest of the file is the
//! Markdown body.
use vstd::prelude::*;

verus! {

use vstd::string::StrSliceExecFns;
use vstd::string::StringExecFns;
use crate::date::Date;
use crate::date::spec_date_display;
use crate::frontmatter::FrontMatterModel;
use crate::frontmatter::LoadError;
use crate::frontmatter::lemma_front_matter_date_wf;
use crate::frontmatter::parse_front_matter;
use crate::frontmatter::spec_parse_front_matter;
use crate::markdown::markdown_html;
use crate::markdown::render_markdown;
use crate::text::join_lines;
use crate::text::join_lines_exec;
use crate::text::spec_ends_with;
use crate::text::spec_lines;
use crate::text::split_lines;
use crate::text::str_ends_with;
use crate::text::str_eq;

/// The index of the first `---` line at or after `from`, or
/// `lines.len()` when there is none.
pub open spec fn first_delim(lines: Seq<Seq<char>>, from: int) -> int
    decreases lines.len() - from,
{
    if from < 0 || from >= lines.len() {
        lines.len() as int
    } else if lines[from] == "---"@ {
        from
    } else {
        first_delim(lines, from + 1)
    }
}

proof fn lemma_first_delim_is(lines: Seq<Seq<char>>, from: int, k: int)
    requires
        0 <= from <= k <= lines.len(),
        forall|j: int| from <= j < k ==> lines[j] != "---"@,
        k == lines.len() || lines[k] == "---"@,
    ensures
        first_delim(lines, from) == k,
    decreases k - from,
{
    if from < k {
        lemma_first_delim_is(lines, from + 1, k);
    }
}

/// Split a file into its front-matter lines and its body. The file
/// must open with a `---` line and hold a second one; the body is
/// everything after it.
pub open spec fn spec_split_doc(text: Seq<char>) -> Option<(Seq<Seq<char>>, Seq<char>)> {
    let lines = spec_lines(text);
    if lines.len() == 0 || lines[0] != "---"@ {
        None
    } else {
        let j = first_delim(lines, 1);
        if j >= lines.len() {
            None
        } else {
            Some(
                (lines.subrange(1, j), join_lines(lines.subrange(j + 1, lines.len() as int))),
            )
        }
    }
}

/// What loading a file yields: its header fields and its body, or the
/// first error met.
pub open spec fn spec_load(text: Seq<char>) -> Result<(FrontMatterModel, Seq<char>), LoadError> {
    match spec_split_doc(text) {
        None => Err(LoadError::MissingFrontMatter),
        Some((fm_lines, body)) => match spec_parse_front_matter(fm_lines) {
            Err(e) => Err(e),
            Ok(m) => Ok((m, body)),
        },
    }
}

/// The slug of a file name: the name with a final `.md` removed; a
/// name without it stands as it is, and an empty name falls back to
/// the sentinel `unknown`.
pub open spec fn spec_slug_of(name: Seq<char>) -> Seq<char> {
    if name.len() > 3 && spec_ends_with(name, ".md"@) {
        name.take(name.len() - 3)
    } else if name.len() > 0 {
        name
    } else {
        "unknown"@
    }
}

pub fn slug_of_file_name(name: &str) -> (r: String)
    ensures
        r@ == spec_slug_of(name@),
{
    let n: usize = name.unicode_len();
    if n > 3 && str_ends_with(name, ".md") {
        name.substring_char(0, n - 3).to_owned()
    } else if n > 0 {
        name.to_owned()
    } else {
        String::from_str("unknown")
    }
}

/// One blog post, ready to show: metadata from the front matter and
/// the body rendered to HTML.
#[derive(Debug)]
pub struct Post {
    pub slug: String,
    pub title: String,
    pub date: Date,
    pub date_display: String,
    pub subtitle: Option<String>,
    pub tags: Vec<String>,
    pub excerpt: String,
    pub reading_time: u32,
    pub content: String,
}

impl Post {
    /// The date is a real day and the display string is its long form.
    pub open spec fn wf(&self) -> bool {
        self.date.wf() && self.date_display@ == spec_date_display(self.date)
    }
}

/// `p` is the post that the file `name` with contents `text` yields.
pub open spec fn spec_post_matches(p: Post, name: Seq<char>, text: Seq<char>) -> bool {
    &&& spec_load(text) is Ok
    &&& {
        let m = spec_load(text)->Ok_0.0;
        let body = spec_load(text)->Ok_0.1;
        &&& p.slug@ == spec_slug_of(name)
        &&& p.title@ == m.title
        &&& p.date == m.date
        &&& p.date_display@ == spec_date_display(m.date)
        &&& p.subtitle.deep_view() == m.subtitle
        &&& p.tags.deep_view() == m.tags
        &&& p.excerpt@ == m.excerpt
        &&& p.reading_time == m.reading_time
        &&& p.content@ == markdown_html(body)
        &&& p.wf()
    }
}

/// Law: a post loaded from a valid file carries the file's base name
/// as its slug, the declared date, and that date written in its long
/// display form.
pub proof fn lemma_loaded_post_identity(p: Post, name: Seq<char>, text: Seq<char>)
    requires
        spec_post_matches(p, name, text),
    ensures
        p.slug@ == spec_slug_of(name),
        p.date == spec_load(text)->Ok_0.0.date,
        p.date_display@ == spec_date_display(spec_load(text)->Ok_0.0.date),
{
}

/// Load one post from the name and contents of its file. Succeeds
/// exactly when the contents carry a front-matter block whose every
/// line reads and whose required fields are all present.
pub fn load_post(name: &str, text: &str) -> (r: Result<Post, LoadError>)
    ensures
        r is Ok <==> spec_load(text@) is Ok,
        r is Ok ==> spec_post_matches(r->Ok_0, name@, text@),
        r is Err ==> spec_load(text@) == Err::<(FrontMatterModel, Seq<char>), LoadError>(r->Err_0),
{
    let lines = split_lines(text);
    let ghost dv = lines.deep_view();
    proof {
        assert(dv.len() == lines@.len());
    }
    if lines.len() == 0 {
        return Err(LoadError::MissingFrontMatter);
    }
    if !str_eq(lines[0].as_str(), "---") {
        proof {
            assert(dv[0] == lines@[0]@);
        }
        return Err(LoadError::MissingFrontMatter);
    }
    proof {
        assert(dv[0] == "---"@);
    }
    let mut j: usize = 1;
    while j < lines.len() && !str_eq(lines[j].as_str(), "---")
        invariant
            dv == lines.deep_view(),
            dv == spec_lines(text@),
            dv.len() == lines@.len(),
            1 <= j <= lines@.len(),
            forall|k: int| 1 <= k < j ==> dv[k] != "---"@,
        decreases lines@.len() - j,
    {
        proof {
            assert(dv[j as int] == lines@[j as int]@);
        }
        j = j + 1;
    }
    if j == lines.len() {
        proof {
            lemma_first_delim_is(dv, 1, j as int);
        }
        return Err(LoadError::MissingFrontMatter);
    }
    proof {
        assert(dv[j as int] == lines@[j as int]@);
        lemma_first_delim_is(dv, 1, j as int);
    }
    let mut fm_lines: Vec<String> = Vec::new();
    let mut k: usize = 1;
    while k < j
        invariant
            dv == lines.deep_view(),
            dv.len() == lines@.len(),
            1 <= k <= j,
            j < lines@.len(),
            fm_lines.deep_view() =~= dv.subrange(1, k as int),
        decreases j - k,
    {
        let ghost pre = fm_lines.deep_view();
        fm_lines.push(lines[k].clone());
        proof {
            assert(dv[k as int] == lines@[k as int]@);
            assert(fm_lines.deep_view() =~= pre.push(dv[k as int]));
            assert(dv.subrange(1, k as int + 1) =~= pre.push(dv[k as int]));
        }
        k = k + 1;
    }
    let ghost fm_dv = dv.subrange(1, j as int);
    let fm = match parse_front_matter(&fm_lines) {
        Ok(fm) => fm,
        Err(e) => {
            return Err(e);
        },
    };
    let mut body_lines: Vec<String> = Vec::new();
    let mut k2: usize = j + 1;
    while k2 < lines.len()
        invariant
            dv == lines.deep_view(),
            dv.len() == lines@.len(),
            j + 1 <= k2 <= lines@.len(),
            body_lines.deep_view() =~= dv.subrange(j as int + 1, k2 as int),
        decreases lines@.len() - k2,
    {
        let ghost pre = body_lines.deep_view();
        body_lines.push(lines[k2].clone());
        proof {
            assert(dv[k2 as int] == lines@[k2 as int]@);
            assert(body_lines.deep_view() =~= pre.push(dv[k2 as int]));
            assert(dv.subrange(j as int + 1, k2 as int + 1) =~= pre.push(dv[k2 as int]));
        }
        k2 = k2 + 1;
    }
    let body = join_lines_exec(&body_lines);
    let content = render_markdown(body.as_str());
    let slug = slug_of_file_name(name);
    proof {
        lemma_front_matter_date_wf(fm_dv);
    }
    let date_display = fm.date.display();
    Ok(
        Post {
            slug,
            title: fm.title,
            date: fm.date,
            date_display,
            subtitle: fm.subtitle,
            tags: fm.tags,
            excerpt: fm.excerpt,
            reading_time: fm.reading_time,
            content,
        },
    )
}

} // verus!
