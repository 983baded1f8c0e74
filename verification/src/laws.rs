//! Structural guarantees of the generated text, proved over the line model.
//!
//! The statements quantify over every chain, every mode and every live-reload
//! reference: tag balance of the composed markup, well-formed degenerate
//! output for an empty chain, uniqueness of the live-reload wiring, mutual
//! exclusion of the mode-specific tails, and uniqueness of the server-mode
//! version-threshold branch.

use crate::model::close_tag_line;
use crate::model::close_tag_lines;
use crate::model::client_tail_lines;
use crate::model::edge_import_line;
use crate::model::empty_line;
use crate::model::entry_lines;
use crate::model::foot_lines;
use crate::model::head_lines;
use crate::model::hydrate_call_line;
use crate::model::import_lines;
use crate::model::indent;
use crate::model::index_export_line;
use crate::model::layout_import_line;
use crate::model::legacy_import_line;
use crate::model::live_reload_import_line;
use crate::model::mount_call_line;
use crate::model::open_tag_line;
use crate::model::open_tag_lines;
use crate::model::preamble_lines;
use crate::model::react_import_line;
use crate::model::server_tail_lines;
use crate::model::tail_lines;
use crate::model::version_branch_line;
use vstd::prelude::*;

verus! {

/// How many lines of `ls` are exactly the line `t`.
pub open spec fn count_eq(ls: Seq<Seq<char>>, t: Seq<char>) -> nat
    decreases ls.len(),
{
    if ls.len() == 0 {
        0
    } else {
        (if ls.first() == t {
            1nat
        } else {
            0nat
        }) + count_eq(ls.drop_first(), t)
    }
}

/// Counting a line distributes over concatenation of line sequences.
pub proof fn lemma_count_concat(a: Seq<Seq<char>>, b: Seq<Seq<char>>, t: Seq<char>)
    ensures
        count_eq(a + b, t) == count_eq(a, t) + count_eq(b, t),
    decreases a.len(),
{
    if a.len() == 0 {
        assert(a + b =~= b);
    } else {
        assert((a + b).drop_first() =~= a.drop_first() + b);
        lemma_count_concat(a.drop_first(), b, t);
    }
}

/// A line occurring nowhere in a sequence is counted zero times.
pub proof fn lemma_count_zero(ls: Seq<Seq<char>>, t: Seq<char>)
    requires
        forall|k: int| 0 <= k < ls.len() ==> ls[k] != t,
    ensures
        count_eq(ls, t) == 0,
    decreases ls.len(),
{
    if ls.len() > 0 {
        lemma_count_zero(ls.drop_first(), t);
    }
}

/// A line occurring at exactly one position is counted exactly once.
pub proof fn lemma_count_single(ls: Seq<Seq<char>>, t: Seq<char>, i: int)
    requires
        0 <= i < ls.len(),
        ls[i] == t,
        forall|k: int| 0 <= k < ls.len() && k != i ==> ls[k] != t,
    ensures
        count_eq(ls, t) == 1,
    decreases ls.len(),
{
    if i == 0 {
        lemma_count_zero(ls.drop_first(), t);
    } else {
        lemma_count_single(ls.drop_first(), t, i - 1);
    }
}

/// An indentation run is all spaces, eight per level.
proof fn lemma_indent_chars(k: nat)
    ensures
        indent(k).len() == 8 * k,
        forall|m: int| 0 <= m < 8 * k ==> indent(k)[m] == ' ',
    decreases k,
{
    reveal_strlit("        ");
    if k > 0 {
        lemma_indent_chars((k - 1) as nat);
        assert forall|m: int| 0 <= m < 8 * k implies indent(k)[m] == ' ' by {
            if m < 8 * (k - 1) {
                assert(indent(k)[m] == indent((k - 1) as nat)[m]);
            } else {
                assert(indent(k)[m] == "        "@[m - 8 * (k - 1)]);
            }
        }
    }
}

/// Every markup tag line starts with at least eight spaces.
proof fn lemma_tag_line_chars(i: nat)
    ensures
        open_tag_line(i).len() > 8,
        close_tag_line(i).len() > 8,
        forall|m: int| 0 <= m < 8 ==> open_tag_line(i)[m] == ' ',
        forall|m: int| 0 <= m < 8 ==> close_tag_line(i)[m] == ' ',
{
    lemma_indent_chars(i + 1);
    reveal_strlit("<Layout");
    reveal_strlit("</Layout");
    reveal_strlit(">");
    assert forall|m: int| 0 <= m < 8 implies open_tag_line(i)[m] == ' ' by {
        assert(open_tag_line(i)[m] == indent(i + 1)[m]);
    }
    assert forall|m: int| 0 <= m < 8 implies close_tag_line(i)[m] == ' ' by {
        assert(close_tag_line(i)[m] == indent(i + 1)[m]);
    }
}

/// Every layout import line starts with `import Layout`.
proof fn lemma_layout_line_chars(j: nat, p: Seq<char>)
    ensures
        layout_import_line(j, p).len() > 7,
        layout_import_line(j, p)[0] == 'i',
        layout_import_line(j, p)[7] == 'L',
{
    reveal_strlit("import Layout");
}

/// The live-reload import line starts with `import m`, whatever the module
/// reference.
proof fn lemma_live_line_chars(lr: Seq<char>)
    ensures
        live_reload_import_line(lr).len() > 7,
        live_reload_import_line(lr)[0] == 'i',
        live_reload_import_line(lr)[7] == 'm',
{
    reveal_strlit("import mountLiveReload from '");
    reveal_strlit("';");
}

/// Length and leading-character facts of every fixed output line, anchoring
/// the pairwise distinctness arguments: all fixed lines have pairwise
/// distinct lengths except the two of length 26, which differ in their first
/// character.
proof fn lemma_fixed_line_chars()
    ensures
        react_import_line().len() == 26,
        react_import_line()[0] == 'i',
        react_import_line()[7] == 'R',
        "const Entrypoint = () => {"@.len() == 26,
        "const Entrypoint = () => {"@[0] == 'c',
        mount_call_line().len() == 144,
        mount_call_line()[0] == ' ',
        mount_call_line()[4] == 'm',
        "    return ("@.len() == 12,
        "    return ("@[0] == ' ',
        "    );"@.len() == 6,
        "    );"@[0] == ' ',
        "};"@.len() == 2,
        "};"@[0] == '}',
        "import { hydrateRoot } from 'react-dom/client';"@.len() == 47,
        "import { hydrateRoot } from 'react-dom/client';"@[0] == 'i',
        "import { hydrateRoot } from 'react-dom/client';"@[7] == '{',
        "const container = document.getElementById('root');"@.len() == 50,
        "const container = document.getElementById('root');"@[0] == 'c',
        hydrate_call_line().len() == 39,
        hydrate_call_line()[0] == 'h',
        "// Dynamically import renderToString based on React version"@.len() == 59,
        "// Dynamically import renderToString based on React version"@[0] == '/',
        "async function getRenderToString() {"@.len() == 36,
        "async function getRenderToString() {"@[0] == 'a',
        "  const reactVersion = React.version;"@.len() == 37,
        "  const reactVersion = React.version;"@[0] == ' ',
        "  const majorVersion = parseInt(reactVersion.split('.')[0], 10);"@.len() == 64,
        "  const majorVersion = parseInt(reactVersion.split('.')[0], 10);"@[0] == ' ',
        version_branch_line().len() == 27,
        version_branch_line()[0] == ' ',
        version_branch_line()[2] == 'i',
        edge_import_line().len() == 66,
        edge_import_line()[0] == ' ',
        edge_import_line()[4] == 'r',
        "  } else {"@.len() == 10,
        "  } else {"@[0] == ' ',
        legacy_import_line().len() == 61,
        legacy_import_line()[0] == ' ',
        legacy_import_line()[4] == 'r',
        "  }"@.len() == 3,
        "  }"@[0] == ' ',
        "}"@.len() == 1,
        "}"@[0] == '}',
        index_export_line().len() == 34,
        index_export_line()[0] == 'e',
        "  const renderToString = await getRenderToString();"@.len() == 51,
        "  const renderToString = await getRenderToString();"@[0] == ' ',
        "  return renderToString(<Entrypoint />);"@.len() == 40,
        "  return renderToString(<Entrypoint />);"@[0] == ' ',
{
    reveal_strlit("import React from 'react';");
    reveal_strlit("const Entrypoint = () => {");
    reveal_strlit("    mountLiveReload({SSR_RENDERING: process.env.SSR_RENDERING, NODE_ENV: process.env.NODE_ENV, LIVE_RELOAD_PORT: process.env.LIVE_RELOAD_PORT});");
    reveal_strlit("    return (");
    reveal_strlit("    );");
    reveal_strlit("};");
    reveal_strlit("import { hydrateRoot } from 'react-dom/client';");
    reveal_strlit("const container = document.getElementById('root');");
    reveal_strlit("hydrateRoot(container, <Entrypoint />);");
    reveal_strlit("// Dynamically import renderToString based on React version");
    reveal_strlit("async function getRenderToString() {");
    reveal_strlit("  const reactVersion = React.version;");
    reveal_strlit("  const majorVersion = parseInt(reactVersion.split('.')[0], 10);");
    reveal_strlit("  if (majorVersion >= 19) {");
    reveal_strlit("    return (await import('react-dom/server.edge')).renderToString;");
    reveal_strlit("  } else {");
    reveal_strlit("    return (await import('react-dom/server')).renderToString;");
    reveal_strlit("  }");
    reveal_strlit("}");
    reveal_strlit("export const Index = async () => {");
    reveal_strlit("  const renderToString = await getRenderToString();");
    reveal_strlit("  return renderToString(<Entrypoint />);");
}

/// Counting a line in the whole output decomposes into the seven sections.
proof fn lemma_count_entry(paths: Seq<Seq<char>>, is_server: bool, lr: Seq<char>, t: Seq<char>)
    ensures
        count_eq(entry_lines(paths, is_server, lr), t) == count_eq(preamble_lines(lr), t)
            + count_eq(import_lines(paths), t) + count_eq(head_lines(), t) + count_eq(
            open_tag_lines(paths.len()),
            t,
        ) + count_eq(close_tag_lines(paths.len()), t) + count_eq(foot_lines(), t) + count_eq(
            tail_lines(is_server),
            t,
        ),
{
    let a1 = preamble_lines(lr);
    let a2 = a1 + import_lines(paths);
    let a3 = a2 + head_lines();
    let a4 = a3 + open_tag_lines(paths.len());
    let a5 = a4 + close_tag_lines(paths.len());
    let a6 = a5 + foot_lines();
    lemma_count_concat(a1, import_lines(paths), t);
    lemma_count_concat(a2, head_lines(), t);
    lemma_count_concat(a3, open_tag_lines(paths.len()), t);
    lemma_count_concat(a4, close_tag_lines(paths.len()), t);
    lemma_count_concat(a5, foot_lines(), t);
    lemma_count_concat(a6, tail_lines(is_server), t);
}

/// The preamble holds the live-reload import line once and nothing else that
/// could collide with a sought line.
proof fn lemma_count_preamble(lr: Seq<char>, t: Seq<char>)
    requires
        t != react_import_line(),
        t != empty_line(),
    ensures
        count_eq(preamble_lines(lr), t) == (if t == live_reload_import_line(lr) {
            1nat
        } else {
            0nat
        }),
{
    if t == live_reload_import_line(lr) {
        lemma_count_single(preamble_lines(lr), t, 1);
    } else {
        lemma_count_zero(preamble_lines(lr), t);
    }
}

/// No layout import line equals a sought line that does not start with
/// `import ` followed by `L`.
proof fn lemma_count_imports_zero(paths: Seq<Seq<char>>, t: Seq<char>)
    requires
        t.len() > 7,
        t[0] != 'i' || t[7] != 'L',
    ensures
        count_eq(import_lines(paths), t) == 0,
{
    assert forall|k: int| 0 <= k < import_lines(paths).len() implies import_lines(paths)[k]
        != t by {
        lemma_layout_line_chars(k as nat, paths[k]);
    }
    lemma_count_zero(import_lines(paths), t);
}

/// The component head holds the mount invocation once and nothing else that
/// could collide with a sought line.
proof fn lemma_count_head(t: Seq<char>)
    requires
        t != empty_line(),
        t != "const Entrypoint = () => {"@,
        t != "    return ("@,
    ensures
        count_eq(head_lines(), t) == (if t == mount_call_line() {
            1nat
        } else {
            0nat
        }),
{
    if t == mount_call_line() {
        lemma_count_single(head_lines(), t, 2);
    } else {
        lemma_count_zero(head_lines(), t);
    }
}

/// No markup tag line equals a sought line with a non-space character among
/// its first eight.
proof fn lemma_count_tags_zero(n: nat, t: Seq<char>, m: int)
    requires
        0 <= m < 8,
        m < t.len(),
        t[m] != ' ',
    ensures
        count_eq(open_tag_lines(n), t) == 0,
        count_eq(close_tag_lines(n), t) == 0,
{
    assert forall|k: int| 0 <= k < open_tag_lines(n).len() implies open_tag_lines(n)[k] != t by {
        lemma_tag_line_chars(k as nat);
    }
    assert forall|k: int| 0 <= k < close_tag_lines(n).len() implies close_tag_lines(n)[k] != t by {
        lemma_tag_line_chars((n - 1 - k) as nat);
    }
    lemma_count_zero(open_tag_lines(n), t);
    lemma_count_zero(close_tag_lines(n), t);
}

/// The component foot holds nothing that collides with a sought line.
proof fn lemma_count_foot(t: Seq<char>)
    requires
        t != "    );"@,
        t != "};"@,
        t != empty_line(),
    ensures
        count_eq(foot_lines(), t) == 0,
{
    lemma_count_zero(foot_lines(), t);
}

/// The client tail holds the hydration call once and nothing else that could
/// collide with a sought line.
proof fn lemma_count_client_tail(t: Seq<char>)
    requires
        t != "import { hydrateRoot } from 'react-dom/client';"@,
        t != "const container = document.getElementById('root');"@,
    ensures
        count_eq(client_tail_lines(), t) == (if t == hydrate_call_line() {
            1nat
        } else {
            0nat
        }),
{
    if t == hydrate_call_line() {
        lemma_count_single(client_tail_lines(), t, 2);
    } else {
        lemma_count_zero(client_tail_lines(), t);
    }
}

/// The server tail holds the version branch, its two alternative imports and
/// the exported render function once each, and nothing else that could
/// collide with a sought line.
#[verifier::rlimit(50)]
proof fn lemma_count_server_tail(t: Seq<char>)
    requires
        t != "// Dynamically import renderToString based on React version"@,
        t != "async function getRenderToString() {"@,
        t != "  const reactVersion = React.version;"@,
        t != "  const majorVersion = parseInt(reactVersion.split('.')[0], 10);"@,
        t != empty_line(),
        t != "  } else {"@,
        t != "  }"@,
        t != "}"@,
        t != "  const renderToString = await getRenderToString();"@,
        t != "  return renderToString(<Entrypoint />);"@,
        t != "};"@,
    ensures
        count_eq(server_tail_lines(), t) == (if t == version_branch_line() {
            1nat
        } else {
            0nat
        }) + (if t == edge_import_line() {
            1nat
        } else {
            0nat
        }) + (if t == legacy_import_line() {
            1nat
        } else {
            0nat
        }) + (if t == index_export_line() {
            1nat
        } else {
            0nat
        }),
{
    lemma_fixed_line_chars();
    let ls = server_tail_lines();
    assert(ls.len() == 16);
    assert(ls[0] == "// Dynamically import renderToString based on React version"@);
    assert(ls[1] == "async function getRenderToString() {"@);
    assert(ls[2] == "  const reactVersion = React.version;"@);
    assert(ls[3] == "  const majorVersion = parseInt(reactVersion.split('.')[0], 10);"@);
    assert(ls[4] == empty_line());
    assert(ls[5] == version_branch_line());
    assert(ls[6] == edge_import_line());
    assert(ls[7] == "  } else {"@);
    assert(ls[8] == legacy_import_line());
    assert(ls[9] == "  }"@);
    assert(ls[10] == "}"@);
    assert(ls[11] == empty_line());
    assert(ls[12] == index_export_line());
    assert(ls[13] == "  const renderToString = await getRenderToString();"@);
    assert(ls[14] == "  return renderToString(<Entrypoint />);"@);
    assert(ls[15] == "};"@);
    if t == version_branch_line() {
        lemma_count_single(server_tail_lines(), t, 5);
    } else if t == edge_import_line() {
        lemma_count_single(server_tail_lines(), t, 6);
    } else if t == legacy_import_line() {
        lemma_count_single(server_tail_lines(), t, 8);
    } else if t == index_export_line() {
        lemma_count_single(server_tail_lines(), t, 12);
    } else {
        lemma_count_zero(server_tail_lines(), t);
    }
}

/// The markup section rendered as a properly nested tree over chain indices
/// `i .. n`: each level opens its tag, contains the deeper levels, and then
/// closes its own tag.
pub open spec fn nested_markup_lines(i: nat, n: nat) -> Seq<Seq<char>>
    decreases n - i,
{
    if i >= n {
        Seq::empty()
    } else {
        seq![open_tag_line(i)] + nested_markup_lines((i + 1) as nat, n) + seq![close_tag_line(i)]
    }
}

/// The flat run of opening tag lines for chain indices `i .. n`.
spec fn open_lines_from(i: nat, n: nat) -> Seq<Seq<char>> {
    Seq::new((n - i) as nat, |k: int| open_tag_line((i + k) as nat))
}

/// The flat run of closing tag lines for chain indices `i .. n`, innermost
/// first.
spec fn close_lines_from(i: nat, n: nat) -> Seq<Seq<char>> {
    Seq::new((n - i) as nat, |k: int| close_tag_line((n - 1 - k) as nat))
}

/// The two flat runs emitted by the generator are exactly a properly nested
/// rendering of the tree.
proof fn lemma_markup_flat_is_nested(i: nat, n: nat)
    requires
        i <= n,
    ensures
        open_lines_from(i, n) + close_lines_from(i, n) == nested_markup_lines(i, n),
    decreases n - i,
{
    if i >= n {
        assert(open_lines_from(i, n) + close_lines_from(i, n) =~= nested_markup_lines(i, n));
    } else {
        lemma_markup_flat_is_nested((i + 1) as nat, n);
        assert(open_lines_from(i, n) =~= seq![open_tag_line(i)] + open_lines_from(
            (i + 1) as nat,
            n,
        ));
        assert(close_lines_from(i, n) =~= close_lines_from((i + 1) as nat, n) + seq![
            close_tag_line(i),
        ]);
        assert(open_lines_from(i, n) + close_lines_from(i, n) =~= seq![open_tag_line(i)] + (
        open_lines_from((i + 1) as nat, n) + close_lines_from((i + 1) as nat, n)) + seq![
            close_tag_line(i),
        ]);
    }
}

/// Stack balance of the composed markup: for a chain of length `n` the
/// generator emits exactly `n` opening tag lines and exactly `n` closing tag
/// lines; the `k`-th opening tag addresses chain index `k` while the `k`-th
/// closing tag addresses chain index `n - 1 - k`, so the closing sequence is
/// the exact reverse of the opening sequence; and the two flat runs together
/// form a properly nested tree.
pub proof fn lemma_markup_stack_balanced(n: nat)
    ensures
        open_tag_lines(n).len() == n,
        close_tag_lines(n).len() == n,
        forall|k: int| 0 <= k < n ==> open_tag_lines(n)[k] == open_tag_line(k as nat),
        forall|k: int| 0 <= k < n ==> close_tag_lines(n)[k] == close_tag_line((n - 1 - k) as nat),
        close_tag_lines(n) == Seq::new(n, |k: int| close_tag_line(k as nat)).reverse(),
        open_tag_lines(n) + close_tag_lines(n) == nested_markup_lines(0, n),
{
    assert(open_tag_lines(n) =~= open_lines_from(0, n));
    assert(close_tag_lines(n) =~= close_lines_from(0, n));
    assert(close_tag_lines(n) =~= Seq::new(n, |k: int| close_tag_line(k as nat)).reverse());
    lemma_markup_flat_is_nested(0, n);
}

/// Degenerate chain: with no layouts the generator emits no layout imports
/// and no markup tags, and the output is exactly the fixed, well-formed
/// skeleton around an empty composed tree, for either mode.
pub proof fn lemma_empty_chain(is_server: bool, lr: Seq<char>)
    ensures
        import_lines(Seq::<Seq<char>>::empty()) == Seq::<Seq<char>>::empty(),
        open_tag_lines(0) == Seq::<Seq<char>>::empty(),
        close_tag_lines(0) == Seq::<Seq<char>>::empty(),
        entry_lines(Seq::<Seq<char>>::empty(), is_server, lr) == preamble_lines(lr) + head_lines()
            + foot_lines() + tail_lines(is_server),
{
    assert(import_lines(Seq::<Seq<char>>::empty()) =~= Seq::<Seq<char>>::empty());
    assert(open_tag_lines(0) =~= Seq::<Seq<char>>::empty());
    assert(close_tag_lines(0) =~= Seq::<Seq<char>>::empty());
    assert(entry_lines(Seq::<Seq<char>>::empty(), is_server, lr) =~= preamble_lines(lr)
        + head_lines() + foot_lines() + tail_lines(is_server));
}

/// The live-reload wiring is unique: whatever the chain, the mode and the
/// module reference, the output holds exactly one import of the live-reload
/// reference and exactly one invocation of its mount function.
pub proof fn lemma_live_reload_once(paths: Seq<Seq<char>>, is_server: bool, lr: Seq<char>)
    ensures
        count_eq(entry_lines(paths, is_server, lr), live_reload_import_line(lr)) == 1,
        count_eq(entry_lines(paths, is_server, lr), mount_call_line()) == 1,
{
    lemma_fixed_line_chars();
    lemma_live_line_chars(lr);
    let t1 = live_reload_import_line(lr);
    lemma_count_entry(paths, is_server, lr, t1);
    lemma_count_preamble(lr, t1);
    lemma_count_imports_zero(paths, t1);
    lemma_count_head(t1);
    lemma_count_tags_zero(paths.len(), t1, 0);
    lemma_count_foot(t1);
    if is_server {
        lemma_count_server_tail(t1);
    } else {
        lemma_count_client_tail(t1);
    }
    let t2 = mount_call_line();
    lemma_count_entry(paths, is_server, lr, t2);
    lemma_count_preamble(lr, t2);
    lemma_count_imports_zero(paths, t2);
    lemma_count_head(t2);
    lemma_count_tags_zero(paths.len(), t2, 4);
    lemma_count_foot(t2);
    if is_server {
        lemma_count_server_tail(t2);
    } else {
        lemma_count_client_tail(t2);
    }
}

/// The two bootstrap tails are mutually exclusive: client output holds the
/// hydration call exactly once and never the exported server render
/// function; server output holds the exported render function exactly once
/// and never the hydration call.
pub proof fn lemma_mode_tails_exclusive(paths: Seq<Seq<char>>, lr: Seq<char>)
    ensures
        count_eq(entry_lines(paths, false, lr), hydrate_call_line()) == 1,
        count_eq(entry_lines(paths, false, lr), index_export_line()) == 0,
        count_eq(entry_lines(paths, true, lr), index_export_line()) == 1,
        count_eq(entry_lines(paths, true, lr), hydrate_call_line()) == 0,
{
    lemma_fixed_line_chars();
    lemma_live_line_chars(lr);
    let th = hydrate_call_line();
    let te = index_export_line();
    lemma_count_entry(paths, false, lr, th);
    lemma_count_entry(paths, true, lr, th);
    lemma_count_entry(paths, false, lr, te);
    lemma_count_entry(paths, true, lr, te);
    lemma_count_preamble(lr, th);
    lemma_count_preamble(lr, te);
    lemma_count_imports_zero(paths, th);
    lemma_count_imports_zero(paths, te);
    lemma_count_head(th);
    lemma_count_head(te);
    lemma_count_tags_zero(paths.len(), th, 0);
    lemma_count_tags_zero(paths.len(), te, 0);
    lemma_count_foot(th);
    lemma_count_foot(te);
    lemma_count_client_tail(th);
    lemma_count_client_tail(te);
    lemma_count_server_tail(th);
    lemma_count_server_tail(te);
}

/// Server-mode output holds exactly one version-threshold branch, and
/// exactly one of each of the two distinct dynamic import paths it selects
/// between.
pub proof fn lemma_version_branch_once(paths: Seq<Seq<char>>, lr: Seq<char>)
    ensures
        count_eq(entry_lines(paths, true, lr), version_branch_line()) == 1,
        count_eq(entry_lines(paths, true, lr), edge_import_line()) == 1,
        count_eq(entry_lines(paths, true, lr), legacy_import_line()) == 1,
        edge_import_line() != legacy_import_line(),
{
    lemma_fixed_line_chars();
    lemma_live_line_chars(lr);
    let tb = version_branch_line();
    let tedge = edge_import_line();
    let tleg = legacy_import_line();
    lemma_count_entry(paths, true, lr, tb);
    lemma_count_entry(paths, true, lr, tedge);
    lemma_count_entry(paths, true, lr, tleg);
    lemma_count_preamble(lr, tb);
    lemma_count_preamble(lr, tedge);
    lemma_count_preamble(lr, tleg);
    lemma_count_imports_zero(paths, tb);
    lemma_count_imports_zero(paths, tedge);
    lemma_count_imports_zero(paths, tleg);
    lemma_count_head(tb);
    lemma_count_head(tedge);
    lemma_count_head(tleg);
    lemma_count_tags_zero(paths.len(), tb, 2);
    lemma_count_tags_zero(paths.len(), tedge, 4);
    lemma_count_tags_zero(paths.len(), tleg, 4);
    lemma_count_foot(tb);
    lemma_count_foot(tedge);
    lemma_count_foot(tleg);
    lemma_count_server_tail(tb);
    lemma_count_server_tail(tedge);
    lemma_count_server_tail(tleg);
}

} // verus!
