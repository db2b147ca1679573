//! The post list: load every Markdown file of the posts directory
//! that parses, skip the ones that do not, and sort by date, newest
//! first.
use vstd::prelude::*;

verus! {

use vstd::string::StrSliceExecFns;
use crate::post::Post;
use crate::post::load_post;
use crate::post::spec_load;
use crate::post::spec_post_matches;
use crate::text::spec_ends_with;
use crate::text::str_ends_with;

broadcast use vstd::multiset::group_multiset_axioms;

/// The name and contents of one file of the posts directory.
pub struct SourceFile {
    pub name: String,
    pub text: String,
}

/// The file has a proper name ending in `.md` and its contents load
/// as a post.
pub open spec fn spec_loadable(f: SourceFile) -> bool {
    f.name@.len() > 3 && spec_ends_with(f.name@, ".md"@) && spec_load(f.text@) is Ok
}

/// `p` is the post of some loadable Markdown file among `files`.
pub open spec fn spec_from_files(p: Post, files: Seq<SourceFile>) -> bool {
    exists|i: int|
        0 <= i < files.len() && #[trigger] spec_post_matches(p, files[i].name@, files[i].text@)
            && files[i].name@.len() > 3 && spec_ends_with(files[i].name@, ".md"@)
}

/// Dates never increase along the list: newest first.
pub open spec fn sorted_desc(ps: Seq<Post>) -> bool {
    forall|i: int, j: int| 0 <= i < j < ps.len() ==> ps[i].date.key() >= ps[j].date.key()
}

fn load_all(files: &Vec<SourceFile>) -> (r: Vec<Post>)
    ensures
        forall|k: int| 0 <= k < r@.len() ==> #[trigger] spec_from_files(r@[k], files@),
        forall|k: int| 0 <= k < r@.len() ==> #[trigger] r@[k].wf(),
        forall|i: int|
            0 <= i < files@.len() && #[trigger] spec_loadable(files@[i]) ==> exists|k: int|
                0 <= k < r@.len() && #[trigger] spec_post_matches(
                    r@[k],
                    files@[i].name@,
                    files@[i].text@,
                ),
{
    let mut r: Vec<Post> = Vec::new();
    let mut i: usize = 0;
    while i < files.len()
        invariant
            i <= files@.len(),
            forall|k: int| 0 <= k < r@.len() ==> #[trigger] spec_from_files(r@[k], files@),
            forall|k: int| 0 <= k < r@.len() ==> #[trigger] r@[k].wf(),
            forall|f: int|
                0 <= f < i && #[trigger] spec_loadable(files@[f]) ==> exists|k: int|
                    0 <= k < r@.len() && #[trigger] spec_post_matches(
                        r@[k],
                        files@[f].name@,
                        files@[f].text@,
                    ),
        decreases files@.len() - i,
    {
        let file = &files[i];
        if file.name.as_str().unicode_len() > 3 && str_ends_with(file.name.as_str(), ".md") {
            match load_post(file.name.as_str(), file.text.as_str()) {
                Ok(p) => {
                    let ghost pre = r@;
                    r.push(p);
                    proof {
                        assert(spec_post_matches(
                            r@[r@.len() - 1],
                            files@[i as int].name@,
                            files@[i as int].text@,
                        ));
                        assert(spec_from_files(r@[r@.len() - 1], files@));
                        assert forall|k: int| 0 <= k < r@.len() implies #[trigger] spec_from_files(
                            r@[k],
                            files@,
                        ) && r@[k].wf() by {
                            if k < pre.len() {
                                assert(r@[k] == pre[k]);
                                assert(spec_from_files(pre[k], files@));
                                assert(pre[k].wf());
                            }
                        }
                        assert forall|f: int|
                            0 <= f < i + 1 && #[trigger] spec_loadable(
                                files@[f],
                            ) implies exists|k: int|
                            0 <= k < r@.len() && #[trigger] spec_post_matches(
                                r@[k],
                                files@[f].name@,
                                files@[f].text@,
                            ) by {
                            if f == i as int {
                                assert(spec_post_matches(
                                    r@[r@.len() - 1],
                                    files@[f].name@,
                                    files@[f].text@,
                                ));
                            } else {
                                let k = choose|k: int|
                                    0 <= k < pre.len() && #[trigger] spec_post_matches(
                                        pre[k],
                                        files@[f].name@,
                                        files@[f].text@,
                                    );
                                assert(r@[k] == pre[k]);
                                assert(spec_post_matches(r@[k], files@[f].name@, files@[f].text@));
                            }
                        }
                    }
                },
                Err(_) => {
                    proof {
                        assert(!spec_loadable(files@[i as int]));
                    }
                },
            }
        } else {
            proof {
                assert(!spec_loadable(files@[i as int]));
            }
        }
        i = i + 1;
    }
    r
}

/// Sort posts by date, newest first. The result holds exactly the
/// same posts.
fn sort_posts(v: Vec<Post>) -> (r: Vec<Post>)
    requires
        forall|k: int| 0 <= k < v@.len() ==> #[trigger] v@[k].wf(),
    ensures
        sorted_desc(r@),
        r@.to_multiset() == v@.to_multiset(),
{
    let mut src = v;
    let mut out: Vec<Post> = Vec::new();
    proof {
        out@.to_multiset_ensures();
        src@.to_multiset_ensures();
        assert(out@.to_multiset().add(src@.to_multiset()) =~= v@.to_multiset());
    }
    while src.len() > 0
        invariant
            forall|k: int| 0 <= k < src@.len() ==> #[trigger] src@[k].wf(),
            forall|k: int| 0 <= k < out@.len() ==> #[trigger] out@[k].wf(),
            sorted_desc(out@),
            forall|a: int, b: int|
                0 <= a < out@.len() && 0 <= b < src@.len() ==> out@[a].date.key()
                    >= src@[b].date.key(),
            out@.to_multiset().add(src@.to_multiset()) == v@.to_multiset(),
        decreases src@.len(),
    {
        let mut m: usize = 0;
        let mut idx: usize = 1;
        while idx < src.len()
            invariant
                src@.len() > 0,
                forall|k: int| 0 <= k < src@.len() ==> #[trigger] src@[k].wf(),
                m < idx <= src@.len(),
                forall|b: int| 0 <= b < idx ==> src@[m as int].date.key() >= src@[b].date.key(),
            decreases src@.len() - idx,
        {
            proof {
                assert(src@[idx as int].wf());
                assert(src@[m as int].wf());
            }
            if !src[idx].date.le(src[m].date) {
                m = idx;
            }
            idx = idx + 1;
        }
        let ghost old_src = src@;
        let ghost old_out = out@;
        let p = src.remove(m);
        out.push(p);
        proof {
            old_src.to_multiset_ensures();
            old_out.to_multiset_ensures();
            assert(old_src.contains(p));
            assert(old_src.to_multiset().count(p) > 0);
            assert(out@.to_multiset().add(src@.to_multiset()) =~= old_out.to_multiset().add(
                old_src.to_multiset(),
            ));
        }
    }
    proof {
        vstd::multiset::lemma_multiset_empty_len(src@.to_multiset());
        src@.to_multiset_ensures();
        assert(out@.to_multiset() =~= v@.to_multiset());
    }
    out
}

/// Load every Markdown file that parses and sort the posts by date,
/// newest first. A file that fails to load is left out; it never
/// fails the whole list.
pub fn load_blog_posts(files: &Vec<SourceFile>) -> (r: Vec<Post>)
    ensures
        sorted_desc(r@),
        forall|k: int| 0 <= k < r@.len() ==> #[trigger] spec_from_files(r@[k], files@),
        forall|i: int|
            0 <= i < files@.len() && #[trigger] spec_loadable(files@[i]) ==> exists|k: int|
                0 <= k < r@.len() && #[trigger] spec_post_matches(
                    r@[k],
                    files@[i].name@,
                    files@[i].text@,
                ),
{
    let loaded = load_all(files);
    let ghost lv = loaded@;
    let r = sort_posts(loaded);
    proof {
        lv.to_multiset_ensures();
        r@.to_multiset_ensures();
        assert forall|k: int| 0 <= k < r@.len() implies #[trigger] spec_from_files(
            r@[k],
            files@,
        ) by {
            assert(r@.contains(r@[k]));
            assert(lv.to_multiset().count(r@[k]) > 0);
            assert(lv.contains(r@[k]));
            let k2 = choose|k2: int| 0 <= k2 < lv.len() && lv[k2] == r@[k];
            assert(spec_from_files(lv[k2], files@));
        }
        assert forall|i: int|
            0 <= i < files@.len() && #[trigger] spec_loadable(files@[i]) implies exists|k: int|
            0 <= k < r@.len() && #[trigger] spec_post_matches(
                r@[k],
                files@[i].name@,
                files@[i].text@,
            ) by {
            let k2 = choose|k2: int|
                0 <= k2 < lv.len() && #[trigger] spec_post_matches(
                    lv[k2],
                    files@[i].name@,
                    files@[i].text@,
                );
            assert(lv.contains(lv[k2]));
            assert(r@.to_multiset().count(lv[k2]) > 0);
            assert(r@.contains(lv[k2]));
            let k = choose|k: int| 0 <= k < r@.len() && r@[k] == lv[k2];
            assert(spec_post_matches(r@[k], files@[i].name@, files@[i].text@));
        }
    }
    r
}

/// The post list of a directory that may not exist: a missing
/// directory yields an empty list, never an error.
pub fn list_posts(dir: Option<&Vec<SourceFile>>) -> (r: Vec<Post>)
    ensures
        dir is None ==> r@.len() == 0,
        dir is Some ==> sorted_desc(r@),
        dir is Some ==> forall|k: int|
            0 <= k < r@.len() ==> #[trigger] spec_from_files(r@[k], (dir->0)@),
        dir is Some ==> forall|i: int|
            0 <= i < (dir->0)@.len() && #[trigger] spec_loadable((dir->0)@[i]) ==> exists|k: int|
                0 <= k < r@.len() && #[trigger] spec_post_matches(
                    r@[k],
                    (dir->0)@[i].name@,
                    (dir->0)@[i].text@,
                ),
{
    match dir {
        None => Vec::new(),
        Some(files) => load_blog_posts(files),
    }
}

} // verus!
