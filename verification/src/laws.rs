//! Cross-cutting properties of the pipeline, stated and proved over the
//! same specification functions the components' contracts use.

use vstd::prelude::*;
use crate::actions::{Action, ActionHook, Reply, spec_reply_text, spec_braced, spec_render_script,
    spec_scripted_abort};
use crate::data::{Location, spec_subfolder_split, spec_project_of};
use crate::shortlink::{spec_composed, spec_prefix_char, spec_prefix_run, spec_vendor_shortlink,
    spec_git_shortlink, spec_expanded_location};
use crate::swap::{Swap, spec_path_swaps, spec_content_swaps};
use crate::txt::{match_at, first_match_from, spec_splice, spec_split_char, spec_starts_with,
    lemma_first_match_is_match, lemma_first_match_minimal, lemma_no_match_when_char_absent,
    lemma_split_char_no_sep, lemma_split_char_append};
use crate::urls::{simple_https_url, simple_https_parts, spec_simple_host, spec_domain_char,
    spec_plain_char, opt_view};
use crate::varbag::spec_insert_entry;

verus! {

/// A character a plain repository slug segment may hold; names with dots
/// or dashes fall outside this law.
pub open spec fn spec_slug_char(c: char) -> bool {
    ('a' <= c && c <= 'z') || ('A' <= c && c <= 'Z') || ('0' <= c && c <= '9') || c == '_'
}

/// The prefix run of a class-only prefix followed by anything else stops
/// exactly at the prefix's end.
proof fn lemma_prefix_run_concat(prefix: Seq<char>, rest: Seq<char>)
    requires
        forall|i: int| 0 <= i < prefix.len() ==> spec_prefix_char(#[trigger] prefix[i]),
        rest.len() > 0,
        !spec_prefix_char(rest[0]),
    ensures
        spec_prefix_run(prefix + rest) == prefix.len(),
    decreases prefix.len(),
{
    let t = prefix + rest;
    if prefix.len() == 0 {
        assert(t =~= rest);
    } else {
        assert(t[0] == prefix[0]);
        assert(t.skip(1) =~= prefix.skip(1) + rest);
        lemma_prefix_run_concat(prefix.skip(1), rest);
    }
}

/// A `vendor:slug` string, with a class-only vendor prefix and a slug
/// free of `:` and `@` that does not begin with `/`, expands through the
/// vendor-prefix branch and no earlier one.
pub proof fn lemma_vendor_link_shape(prefix: Seq<char>, slug: Seq<char>)
    requires
        prefix.len() > 0,
        forall|i: int| 0 <= i < prefix.len() ==> spec_prefix_char(#[trigger] prefix[i]),
        slug.len() > 0,
        forall|i: int| 0 <= i < slug.len() ==> (#[trigger] slug[i]) != ':' && slug[i] != '@',
        slug[0] != '/',
    ensures
        spec_vendor_shortlink(prefix + seq![':'] + slug) == Some((prefix, slug)),
        !spec_starts_with(prefix + seq![':'] + slug, "https://"@),
        spec_git_shortlink(prefix + seq![':'] + slug) is None,
{
    let link = prefix + seq![':'] + slug;
    let plen = prefix.len() as int;
    assert(!spec_prefix_char(':'));
    assert((seq![':'] + slug)[0] == ':');
    lemma_prefix_run_concat(prefix, seq![':'] + slug);
    assert(link =~= prefix + (seq![':'] + slug));
    assert(spec_prefix_run(link) == plen);
    assert(link[plen] == ':');
    assert(link.len() == plen + 1 + slug.len());
    assert(link.take(plen) =~= prefix);
    assert(link.skip(plen + 1) =~= slug);
    // not an https URL: its sixth character is a colon and its seventh a
    // slash, which the prefix, the separator and the slug cannot line up to
    reveal_strlit("https://");
    if spec_starts_with(link, "https://"@) {
        assert(link.subrange(0, 8)[5] == link[5]);
        assert(link.subrange(0, 8)[6] == link[6]);
        assert(link[5] == ':' && link[6] == '/');
        if plen > 5 {
            assert(spec_prefix_char(link[5]));
        } else if plen == 5 {
            assert(link[6] == slug[0]);
        } else {
            assert(link[5] == slug[5 - plen - 1]);
        }
    }
    // not a git@ form: its fourth character is an at sign
    reveal_strlit("git@");
    if spec_starts_with(link, "git@"@) {
        assert(link.subrange(0, 4)[3] == link[3]);
        assert(link[3] == '@');
        if plen > 3 {
            assert(spec_prefix_char(link[3]));
        } else if plen == 3 {
            assert(link[3] == ':');
        } else {
            assert(link[3] == slug[3 - plen - 1]);
        }
    }
}

/// A `vendor:owner/repo` slug of plain names composes, with any simple
/// host, into a URL of the pinned simple https shape, whose parts are the
/// host, the path `/owner/repo` with no fragment, no subfolder to split
/// off, nothing to trim, and `repo` as the project name. Together with
/// the resolver's contract this also forces success: on this shape,
/// expansion returns a location exactly because the project name is
/// non-empty.
pub proof fn lemma_vendor_slug_composes_simple(owner: Seq<char>, repo: Seq<char>, base: Seq<char>)
    requires
        owner.len() > 0,
        repo.len() > 0,
        forall|i: int| 0 <= i < owner.len() ==> spec_slug_char(#[trigger] owner[i]),
        forall|i: int| 0 <= i < repo.len() ==> spec_slug_char(#[trigger] repo[i]),
        spec_simple_host(base),
    ensures
        ({
            let composed = spec_composed(base, owner + "/"@ + repo);
            let parts = simple_https_parts(composed);
            &&& simple_https_url(composed)
            &&& parts.domain == base
            &&& parts.path == "/"@ + owner + "/"@ + repo
            &&& parts.fragment is None
            &&& spec_subfolder_split(parts.path).0 == parts.path
            &&& spec_subfolder_split(parts.path).1 is None
            &&& crate::txt::spec_trim_end_all(parts.path, ".git"@) == parts.path
            &&& spec_project_of(spec_subfolder_split(parts.path).0) == repo
        }),
{
    reveal_strlit("https://");
    reveal_strlit("/");
    reveal_strlit("/-/");
    reveal_strlit(".git");
    reveal_strlit(".");
    reveal_strlit("..");
    reveal_strlit("#");
    let slug = owner + "/"@ + repo;
    let composed = spec_composed(base, slug);
    let path = "/"@ + slug;
    assert(composed =~= "https://"@ + (base + path));
    let after = base + path;
    assert(composed.take(8) =~= "https://"@);
    assert(composed.skip(8) =~= after);

    // every character of the path part is plain, and none is a dot, a
    // dash, a hash or a colon
    assert(("/"@)[0] == '/');
    assert forall|k: int| 0 <= k < path.len() implies spec_plain_char(#[trigger] path[k])
        && path[k] != '#' && path[k] != '-' && path[k] != '.' by {
        if k == 0 {
        } else if k <= owner.len() {
            assert(path[k] == owner[k - 1]);
        } else if k == owner.len() + 1 {
            assert(path[k] == '/');
        } else {
            assert(path[k] == repo[k - owner.len() - 2]);
        }
    }

    // the first slash after the host stands exactly at the host's end
    assert(after[base.len() as int] == path[0]);
    assert(after.subrange(base.len() as int, base.len() as int + 1)[0] == after[base.len() as int]);
    assert(after.subrange(base.len() as int, base.len() as int + 1) =~= seq!['/']);
    assert(match_at(after, seq!['/'], base.len() as int));
    lemma_first_match_minimal(after, seq!['/'], 0, base.len() as int);
    let k = first_match_from(after, seq!['/'], 0)->Some_0;
    lemma_first_match_is_match(after, seq!['/'], 0);
    assert(after.subrange(k, k + 1)[0] == after[k]);
    assert(after[k] == '/');
    if k < base.len() {
        assert(after[k] == base[k]);
        assert(spec_domain_char('/')) by {
            assert(forall|i: int| 0 <= i < base.len() ==> spec_domain_char(#[trigger] base[i]));
        }
        assert(false);
    }
    assert(k == base.len());
    assert(after.take(k) =~= base);
    assert(after.skip(k) =~= path);

    // no fragment: the path part holds no hash
    assert(("#"@).len() == 1) by {
        reveal_strlit("#");
    }
    lemma_no_match_when_char_absent(path, seq!['#'], 0);

    // the path is simple: two non-empty dot-free segments
    lemma_split_char_no_sep(owner, '/');
    lemma_split_char_no_sep(repo, '/');
    lemma_split_char_append(owner, repo, '/');
    assert(owner + seq!['/'] + repo =~= slug);
    assert(path.skip(1) =~= slug);
    assert(spec_split_char(slug, '/') == seq![owner] + seq![repo]);
    assert(spec_split_char(slug, '/').len() == 2);
    assert(spec_split_char(slug, '/')[0] == owner);
    assert(spec_split_char(slug, '/')[1] == repo);
    assert(("."@).len() == 1 && ("."@)[0] == '.') by {
        reveal_strlit(".");
    }
    assert((".."@).len() == 2) by {
        reveal_strlit("..");
    }
    assert forall|w: int| 0 <= w < spec_split_char(path.skip(1), '/').len() implies (
    #[trigger] spec_split_char(path.skip(1), '/')[w]).len() > 0 && spec_split_char(
        path.skip(1),
        '/',
    )[w] != "."@ && spec_split_char(path.skip(1), '/')[w] != ".."@ by {
        let seg = spec_split_char(path.skip(1), '/')[w];
        assert(seg == owner || seg == repo);
        assert(spec_slug_char(owner[0]));
        assert(spec_slug_char(repo[0]));
        if seg == "."@ {
            assert(seg[0] == ("."@)[0]);
        }
        if seg == ".."@ {
            assert(seg[0] == (".."@)[0]);
        }
    }
    assert(crate::urls::spec_simple_path(path));
    assert(simple_https_url(composed));
    let parts = simple_https_parts(composed);
    assert(parts.domain == base);
    assert(parts.path == path);
    assert(parts.fragment is None);

    // the path splits off no subfolder: it holds no dash at all
    assert(("/-/"@)[1] == '-');
    lemma_no_match_when_char_absent(path, "/-/"@, 1);
    assert(spec_subfolder_split(path).0 == path);
    assert(spec_subfolder_split(path).1 is None);

    // nothing is trimmed: the path holds no dot, so it cannot end in .git
    assert((".git"@)[0] == '.');
    if crate::txt::spec_ends_with(path, ".git"@) {
        assert(path.subrange(path.len() - 4, path.len() as int)[0] == path[path.len() - 4]);
        assert(path[path.len() - 4] == '.');
    }
    assert(crate::txt::spec_trim_end_all(path, ".git"@) == path);

    // the project is the last segment: repo
    assert(spec_split_char(path, '/') == spec_split_char(Seq::<char>::empty(), '/')
        + spec_split_char(slug, '/')) by {
        assert(Seq::<char>::empty() + seq!['/'] + slug =~= path);
        lemma_split_char_append(Seq::<char>::empty(), slug, '/');
    }
    assert(spec_split_char(path, '/').last() == repo);
}

/// Resolution of a `vendor:owner/repo` shortlink whose vendor maps to
/// base `B` yields a location with domain `B` and path `/owner/repo`,
/// project `repo`, and no subfolder. Segments with dots or dashes (such
/// as a repo name ending in `.git`) fall outside this law.
pub proof fn lemma_vendor_shortlink_resolution(
    owner: Seq<char>,
    repo: Seq<char>,
    base: Seq<char>,
    loc: Location,
    is_git: bool,
)
    requires
        owner.len() > 0,
        repo.len() > 0,
        forall|i: int| 0 <= i < owner.len() ==> spec_slug_char(#[trigger] owner[i]),
        forall|i: int| 0 <= i < repo.len() ==> spec_slug_char(#[trigger] repo[i]),
        spec_simple_host(base),
        spec_expanded_location(spec_composed(base, owner + "/"@ + repo), loc, is_git),
    ensures
        loc.domain@ == base,
        loc.path@ == "/"@ + owner + "/"@ + repo,
        loc.project@ == repo,
        opt_view(loc.subfolder) is None,
        loc.is_git == is_git,
{
    lemma_vendor_slug_composes_simple(owner, repo, base);
    let composed = spec_composed(base, owner + "/"@ + repo);
    let parts = simple_https_parts(composed);
    assert(loc.is_from_parts(parts, is_git));
}

/// The repository path and the subfolder are split once, at the first
/// delimiter: the repository path holds no further delimiter, and
/// re-deriving the URL path and splitting again gives the same parts.
pub proof fn lemma_subfolder_split_stable(p: Seq<char>)
    requires
        spec_subfolder_split(p).1 is Some,
    ensures
        first_match_from(spec_subfolder_split(p).0, "/-/"@, 0) is None,
        spec_subfolder_split(
            spec_subfolder_split(p).0 + "/-/"@ + spec_subfolder_split(p).1->Some_0,
        ) == spec_subfolder_split(p),
{
    reveal_strlit("/-/");
    let d = "/-/"@;
    let i = first_match_from(p, d, 0)->Some_0;
    lemma_first_match_is_match(p, d, 0);
    assert(p.take(i) + d + p.skip(i + 3) =~= p) by {
        assert(p.subrange(i, i + 3) == d);
        assert forall|k: int| 0 <= k < p.len() implies (p.take(i) + d + p.skip(i + 3))[k]
            == p[k] by {
            if i <= k < i + 3 {
                assert(d[k - i] == p.subrange(i, i + 3)[k - i]);
            }
        }
    }
    if first_match_from(p.take(i), d, 0) is Some {
        lemma_first_match_is_match(p.take(i), d, 0);
        let k = first_match_from(p.take(i), d, 0)->Some_0;
        assert(p.take(i).subrange(k, k + 3) =~= p.subrange(k, k + 3));
        assert(match_at(p, d, k));
        lemma_first_match_minimal(p, d, 0, k);
        assert(false);
    }
}

/// An empty swap list leaves any path and any content untouched, with a
/// substitution count of zero.
pub proof fn lemma_empty_swaps_identity(orig: Seq<char>, path: Seq<char>, content: Seq<char>)
    ensures
        spec_path_swaps(Seq::<Swap>::empty(), orig, path) == path,
        spec_content_swaps(Seq::<Swap>::empty(), orig, content, 0) == (content, 0nat),
{
}

/// Scripted replies consumed by the hook's actions before position
/// `upto`: one per interaction of the active hook.
pub open spec fn spec_replies_consumed(actions: Seq<Action>, hook: ActionHook, upto: int) -> int
    decreases actions.len(),
{
    if upto <= 0 || actions.len() == 0 {
        0
    } else {
        (if actions[0].hook == hook && actions[0].interaction is Some {
            1int
        } else {
            0int
        }) + spec_replies_consumed(actions.skip(1), hook, upto - 1)
    }
}

/// A cancelled answer on an action that breaks on cancel aborts the
/// scripted pass, wherever the action stands in the hook.
pub proof fn lemma_break_on_cancel_aborts(
    actions: Seq<Action>,
    hook: ActionHook,
    replies: Seq<Reply>,
    cur: int,
    j: int,
)
    requires
        0 <= cur,
        0 <= j < actions.len(),
        actions[j].hook == hook,
        actions[j].interaction is Some,
        actions[j].break_if_cancel,
        ({
            let pos = cur + spec_replies_consumed(actions, hook, j);
            (0 <= pos < replies.len()) ==> spec_reply_text(replies[pos]) is None
        }),
    ensures
        spec_scripted_abort(actions, hook, replies, cur),
    decreases j,
{
    let a0 = actions[0];
    if j == 0 {
        assert(spec_replies_consumed(actions, hook, 0) == 0);
    } else {
        assert(actions.skip(1)[j - 1] == actions[j]);
        if a0.hook != hook {
            lemma_break_on_cancel_aborts(actions.skip(1), hook, replies, cur, j - 1);
        } else {
            match a0.interaction {
                None => {
                    lemma_break_on_cancel_aborts(actions.skip(1), hook, replies, cur, j - 1);
                },
                Some(_) => {
                    if 0 <= cur < replies.len() {
                        match spec_reply_text(replies[cur]) {
                            None => {
                                if !a0.break_if_cancel {
                                    lemma_break_on_cancel_aborts(
                                        actions.skip(1),
                                        hook,
                                        replies,
                                        cur + 1,
                                        j - 1,
                                    );
                                }
                            },
                            Some(_) => {
                                lemma_break_on_cancel_aborts(
                                    actions.skip(1),
                                    hook,
                                    replies,
                                    cur + 1,
                                    j - 1,
                                );
                            },
                        }
                    }
                },
            }
        }
    }
}

/// A confirm interaction answered "no" cancels, and on an action that
/// breaks on cancel the whole scripted run aborts: by the runner's
/// contract the run returns an error, so no later action's command runs.
pub proof fn lemma_confirm_no_aborts_run(
    actions: Seq<Action>,
    hook: ActionHook,
    replies: Seq<Reply>,
    j: int,
)
    requires
        0 <= j < actions.len(),
        actions[j].hook == hook,
        actions[j].interaction matches Some(i) && i.kind is Confirm,
        actions[j].break_if_cancel,
        ({
            let pos = spec_replies_consumed(actions, hook, j);
            (0 <= pos < replies.len()) ==> replies[pos] == Reply::Bool(false)
        }),
    ensures
        spec_scripted_abort(actions, hook, replies, 0),
{
    assert(spec_reply_text(Reply::Bool(false)) is None);
    lemma_break_on_cancel_aborts(actions, hook, replies, 0, j);
}

/// Replacing a pattern that first occurs exactly at the end of the text
/// yields the prefix followed by the replacement.
proof fn lemma_splice_at_end(a: Seq<char>, p: Seq<char>, v: Seq<char>)
    requires
        p.len() > 0,
        forall|j: int| 0 <= j < a.len() ==> !match_at(a + p, p, j),
    ensures
        spec_splice(a + p, p, v) == a + v,
    decreases a.len(),
{
    let t = a + p;
    if a.len() == 0 {
        assert(t =~= p);
        assert(t.subrange(0, p.len() as int) =~= p);
        assert(t.skip(p.len() as int) =~= Seq::<char>::empty());
        assert(spec_splice(t.skip(p.len() as int), p, v) =~= Seq::<char>::empty());
        assert(spec_splice(t, p, v) == v + spec_splice(t.skip(p.len() as int), p, v));
        assert(v + Seq::<char>::empty() =~= v);
        assert(a + v =~= v);
    } else {
        assert(!match_at(t, p, 0));
        assert(t.len() >= p.len());
        assert(t.subrange(0, p.len() as int) != p);
        assert(t.skip(1) =~= a.skip(1) + p);
        assert forall|j: int| 0 <= j < a.skip(1).len() implies !match_at(a.skip(1) + p, p, j) by {
            assert(a.skip(1) + p =~= t.skip(1));
            if match_at(t.skip(1), p, j) {
                assert(t.skip(1).subrange(j, j + p.len() as int) =~= t.subrange(
                    j + 1,
                    j + 1 + p.len() as int,
                ));
                assert(match_at(t, p, j + 1));
            }
        }
        lemma_splice_at_end(a.skip(1), p, v);
        assert(seq![t[0]] + (a.skip(1) + v) =~= a + v);
    }
}

/// An input interaction with output variable `city` answered `nyc` leaves
/// the bag with exactly that entry, and a following command
/// `echo {{city}}` renders to `echo nyc`.
pub proof fn lemma_input_feeds_command()
    ensures
        spec_insert_entry(Seq::<(Seq<char>, Seq<char>)>::empty(), "city"@, "nyc"@) == seq![
            ("city"@, "nyc"@),
        ],
        spec_render_script("echo {{city}}"@, seq![("city"@, "nyc"@)]) == "echo nyc"@,
{
    reveal_strlit("city");
    reveal_strlit("nyc");
    reveal_strlit("{{");
    reveal_strlit("}}");
    reveal_strlit("{{city}}");
    reveal_strlit("echo ");
    reveal_strlit("echo {{city}}");
    reveal_strlit("echo nyc");
    assert(spec_insert_entry(Seq::<(Seq<char>, Seq<char>)>::empty(), "city"@, "nyc"@) =~= seq![
        ("city"@, "nyc"@),
    ]);
    let entries = seq![("city"@, "nyc"@)];
    let p = spec_braced("city"@);
    assert(p =~= "{{city}}"@);
    let s = "echo {{city}}"@;
    let a = "echo "@;
    assert(s =~= a + "{{city}}"@);
    assert forall|j: int| 0 <= j < a.len() implies !match_at(a + "{{city}}"@, p, j) by {
        if match_at(a + "{{city}}"@, p, j) {
            assert((a + "{{city}}"@).subrange(j, j + p.len() as int)[0] == (a + "{{city}}"@)[j]);
            assert((a + "{{city}}"@)[j] == a[j]);
            assert(p[0] == '{');
        }
    }
    assert(a + "{{city}}"@ =~= a + p);
    lemma_splice_at_end(a, p, "nyc"@);
    assert(spec_splice(s, p, "nyc"@) == a + "nyc"@);
    assert(a + "nyc"@ =~= "echo nyc"@);
    assert(entries.skip(1) =~= Seq::<(Seq<char>, Seq<char>)>::empty());
    assert(spec_render_script(s, entries) == spec_render_script(
        spec_splice(s, p, "nyc"@),
        entries.skip(1),
    ));
}

} // verus!
