//! Line-level model of the generated entrypoint text.
//!
//! The generated program is modelled as a sequence of lines, each a
//! `Seq<char>` without its trailing newline; [`join_lines`] turns that
//! sequence into the flat text by terminating every line with `'\n'`.
//! [`entry_lines`] is the complete model: the executable generator promises
//! to return exactly `join_lines(entry_lines(..))`.

use vstd::prelude::*;

verus! {

/// The decimal digit character for a single digit value.
pub open spec fn digit_char(d: nat) -> char {
    if d == 0 {
        '0'
    } else if d == 1 {
        '1'
    } else if d == 2 {
        '2'
    } else if d == 3 {
        '3'
    } else if d == 4 {
        '4'
    } else if d == 5 {
        '5'
    } else if d == 6 {
        '6'
    } else if d == 7 {
        '7'
    } else if d == 8 {
        '8'
    } else {
        '9'
    }
}

/// The usual decimal rendering of `n`, without leading zeros (except for 0
/// itself). Each chain position gets its identifier suffix from this, so the
/// generated local names are distinct per position.
pub open spec fn dec(n: nat) -> Seq<char>
    decreases n,
{
    if n < 10 {
        seq![digit_char(n)]
    } else {
        dec(n / 10).push(digit_char(n % 10))
    }
}

/// `k` indent units, one unit per nesting level (eight spaces each).
pub open spec fn indent(k: nat) -> Seq<char>
    decreases k,
{
    if k == 0 {
        Seq::empty()
    } else {
        indent((k - 1) as nat) + "        "@
    }
}

/// Joins the line model into the flat generated text: every line, empty ones
/// included, is terminated by a newline.
pub open spec fn join_lines(ls: Seq<Seq<char>>) -> Seq<char>
    decreases ls.len(),
{
    if ls.len() == 0 {
        Seq::empty()
    } else {
        ls.first() + seq!['\n'] + join_lines(ls.drop_first())
    }
}

/// Views of a sequence of owned strings.
pub open spec fn views_of(ps: Seq<String>) -> Seq<Seq<char>> {
    ps.map_values(|p: String| p@)
}

/// An empty line of output (a blank separator in the generated program).
pub open spec fn empty_line() -> Seq<char> {
    Seq::empty()
}

/// The fixed import of the base rendering library.
pub open spec fn react_import_line() -> Seq<char> {
    "import React from 'react';"@
}

/// The import of the live-reload mount function from the caller's module
/// reference `lr`.
pub open spec fn live_reload_import_line(lr: Seq<char>) -> Seq<char> {
    "import mountLiveReload from '"@ + lr + "';"@
}

/// The import binding chain position `j` (module reference `p`) to the
/// position-derived local name `Layout<j>`.
pub open spec fn layout_import_line(j: nat, p: Seq<char>) -> Seq<char> {
    "import Layout"@ + dec(j) + " from '"@ + p + "';"@
}

/// The single invocation of the mount function, forwarding the three
/// runtime-environment configuration fields.
pub open spec fn mount_call_line() -> Seq<char> {
    "    mountLiveReload({SSR_RENDERING: process.env.SSR_RENDERING, NODE_ENV: process.env.NODE_ENV, LIVE_RELOAD_PORT: process.env.LIVE_RELOAD_PORT});"@
}

/// The opening markup tag for chain position `i`, indented one unit per
/// nesting level.
pub open spec fn open_tag_line(i: nat) -> Seq<char> {
    indent(i + 1) + "<Layout"@ + dec(i) + ">"@
}

/// The closing markup tag for chain position `i`, at the same indentation as
/// its opening tag.
pub open spec fn close_tag_line(i: nat) -> Seq<char> {
    indent(i + 1) + "</Layout"@ + dec(i) + ">"@
}

/// The three lines preceding the layout imports: base library import,
/// live-reload import, blank separator.
pub open spec fn preamble_lines(lr: Seq<char>) -> Seq<Seq<char>> {
    seq![react_import_line(), live_reload_import_line(lr), empty_line()]
}

/// One import line per chain entry, in chain order.
pub open spec fn import_lines(paths: Seq<Seq<char>>) -> Seq<Seq<char>> {
    Seq::new(paths.len(), |j: int| layout_import_line(j as nat, paths[j]))
}

/// The head of the composed component declaration, up to and including
/// `return (`.
pub open spec fn head_lines() -> Seq<Seq<char>> {
    seq![
        empty_line(),
        "const Entrypoint = () => {"@,
        mount_call_line(),
        "    return ("@,
    ]
}

/// The opening tags for a chain of length `n`, outermost first: position `k`
/// of the sequence opens chain index `k`.
pub open spec fn open_tag_lines(n: nat) -> Seq<Seq<char>> {
    Seq::new(n, |k: int| open_tag_line(k as nat))
}

/// The closing tags for a chain of length `n`, innermost first: position `k`
/// of the sequence closes chain index `n - 1 - k`.
pub open spec fn close_tag_lines(n: nat) -> Seq<Seq<char>> {
    Seq::new(n, |k: int| close_tag_line((n - 1 - k) as nat))
}

/// The close of the composed component declaration and the blank separator
/// before the mode-specific tail.
pub open spec fn foot_lines() -> Seq<Seq<char>> {
    seq!["    );"@, "};"@, empty_line()]
}

/// The top-level hydration call that ends client-mode output.
pub open spec fn hydrate_call_line() -> Seq<char> {
    "hydrateRoot(container, <Entrypoint />);"@
}

/// The header of the exported asynchronous server render function.
pub open spec fn index_export_line() -> Seq<char> {
    "export const Index = async () => {"@
}

/// The single version-threshold branch of server-mode output: the parsed
/// major version is compared against 19.
pub open spec fn version_branch_line() -> Seq<char> {
    "  if (majorVersion >= 19) {"@
}

/// The dynamic import taken when the major version meets the threshold.
pub open spec fn edge_import_line() -> Seq<char> {
    "    return (await import('react-dom/server.edge')).renderToString;"@
}

/// The dynamic import taken below the threshold.
pub open spec fn legacy_import_line() -> Seq<char> {
    "    return (await import('react-dom/server')).renderToString;"@
}

/// Client-mode tail: hydrate the composed component into the fixed mount
/// target, eagerly at module load.
pub open spec fn client_tail_lines() -> Seq<Seq<char>> {
    seq![
        "import { hydrateRoot } from 'react-dom/client';"@,
        "const container = document.getElementById('root');"@,
        hydrate_call_line(),
    ]
}

/// Server-mode tail: a helper resolving the render entry point by runtime
/// version, then the exported asynchronous render function.
pub open spec fn server_tail_lines() -> Seq<Seq<char>> {
    seq![
        "// Dynamically import renderToString based on React version"@,
        "async function getRenderToString() {"@,
        "  const reactVersion = React.version;"@,
        "  const majorVersion = parseInt(reactVersion.split('.')[0], 10);"@,
        empty_line(),
        version_branch_line(),
        edge_import_line(),
        "  } else {"@,
        legacy_import_line(),
        "  }"@,
        "}"@,
        empty_line(),
        index_export_line(),
        "  const renderToString = await getRenderToString();"@,
        "  return renderToString(<Entrypoint />);"@,
        "};"@,
    ]
}

/// The mode-specific tail section.
pub open spec fn tail_lines(is_server: bool) -> Seq<Seq<char>> {
    if is_server {
        server_tail_lines()
    } else {
        client_tail_lines()
    }
}

/// The complete line model of the generated entrypoint program.
pub open spec fn entry_lines(paths: Seq<Seq<char>>, is_server: bool, lr: Seq<char>) -> Seq<
    Seq<char>,
> {
    preamble_lines(lr) + import_lines(paths) + head_lines() + open_tag_lines(paths.len())
        + close_tag_lines(paths.len()) + foot_lines() + tail_lines(is_server)
}

/// The complete generated text.
pub open spec fn entrypoint_text(paths: Seq<Seq<char>>, is_server: bool, lr: Seq<char>) -> Seq<
    char,
> {
    join_lines(entry_lines(paths, is_server, lr))
}

} // verus!
