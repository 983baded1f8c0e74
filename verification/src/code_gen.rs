//! Executable construction of the entrypoint text.

use crate::model::digit_char;
use crate::model::dec;
use crate::model::indent;
use crate::model::join_lines;
use crate::model::views_of;
use crate::model::empty_line;
use crate::model::react_import_line;
use crate::model::live_reload_import_line;
use crate::model::layout_import_line;
use crate::model::mount_call_line;
use crate::model::open_tag_line;
use crate::model::close_tag_line;
use crate::model::preamble_lines;
use crate::model::import_lines;
use crate::model::head_lines;
use crate::model::open_tag_lines;
use crate::model::close_tag_lines;
use crate::model::foot_lines;
use crate::model::hydrate_call_line;
use crate::model::index_export_line;
use crate::model::version_branch_line;
use crate::model::edge_import_line;
use crate::model::legacy_import_line;
use crate::model::client_tail_lines;
use crate::model::server_tail_lines;
use crate::model::tail_lines;
use crate::model::entry_lines;
use crate::model::entrypoint_text;
use vstd::prelude::*;
use vstd::string::StringExecFns;

verus! {

/// Appending one more line to a joined line sequence appends the line's
/// characters and a terminating newline.
proof fn lemma_join_push(ls: Seq<Seq<char>>, l: Seq<char>)
    ensures
        join_lines(ls.push(l)) == join_lines(ls) + l + seq!['\n'],
    decreases ls.len(),
{
    let p = ls.push(l);
    if ls.len() == 0 {
        assert(p.first() == l);
        assert(p.drop_first() =~= Seq::<Seq<char>>::empty());
        assert(join_lines(p.drop_first()) == Seq::<char>::empty());
        assert(join_lines(p) == l + seq!['\n'] + Seq::<char>::empty());
        assert(join_lines(ls) == Seq::<char>::empty());
        assert(l + seq!['\n'] + Seq::<char>::empty() =~= Seq::<char>::empty() + l + seq!['\n']);
    } else {
        assert(p.first() == ls.first());
        assert(p.drop_first() =~= ls.drop_first().push(l));
        lemma_join_push(ls.drop_first(), l);
        assert(join_lines(p) == ls.first() + seq!['\n'] + (join_lines(ls.drop_first()) + l
            + seq!['\n']));
        assert(ls.first() + seq!['\n'] + (join_lines(ls.drop_first()) + l + seq!['\n']) =~= (
        ls.first() + seq!['\n'] + join_lines(ls.drop_first())) + l + seq!['\n']);
    }
}

/// Appends the decimal digit character for `d`.
fn append_digit(s: &mut String, d: usize)
    requires
        d < 10,
    ensures
        final(s)@ == old(s)@ + seq![digit_char(d as nat)],
{
    match d {
        0 => {
            s.append("0");
            proof {
                reveal_strlit("0");
                assert(final(s)@ =~= old(s)@ + seq![digit_char(d as nat)]);
            }
        },
        1 => {
            s.append("1");
            proof {
                reveal_strlit("1");
                assert(final(s)@ =~= old(s)@ + seq![digit_char(d as nat)]);
            }
        },
        2 => {
            s.append("2");
            proof {
                reveal_strlit("2");
                assert(final(s)@ =~= old(s)@ + seq![digit_char(d as nat)]);
            }
        },
        3 => {
            s.append("3");
            proof {
                reveal_strlit("3");
                assert(final(s)@ =~= old(s)@ + seq![digit_char(d as nat)]);
            }
        },
        4 => {
            s.append("4");
            proof {
                reveal_strlit("4");
                assert(final(s)@ =~= old(s)@ + seq![digit_char(d as nat)]);
            }
        },
        5 => {
            s.append("5");
            proof {
                reveal_strlit("5");
                assert(final(s)@ =~= old(s)@ + seq![digit_char(d as nat)]);
            }
        },
        6 => {
            s.append("6");
            proof {
                reveal_strlit("6");
                assert(final(s)@ =~= old(s)@ + seq![digit_char(d as nat)]);
            }
        },
        7 => {
            s.append("7");
            proof {
                reveal_strlit("7");
                assert(final(s)@ =~= old(s)@ + seq![digit_char(d as nat)]);
            }
        },
        8 => {
            s.append("8");
            proof {
                reveal_strlit("8");
                assert(final(s)@ =~= old(s)@ + seq![digit_char(d as nat)]);
            }
        },
        _ => {
            s.append("9");
            proof {
                reveal_strlit("9");
                assert(final(s)@ =~= old(s)@ + seq![digit_char(d as nat)]);
            }
        },
    }
}

/// Appends the decimal rendering of `n`, matching [`dec`].
fn append_dec(s: &mut String, n: usize)
    ensures
        final(s)@ == old(s)@ + dec(n as nat),
    decreases n,
{
    if n < 10 {
        append_digit(s, n);
    } else {
        assert(n / 10 < n && n / 10 >= 1) by (nonlinear_arith)
            requires
                n >= 10,
        ;
        append_dec(s, n / 10);
        append_digit(s, n % 10);
        proof {
            assert(dec(n as nat) =~= dec((n as nat) / 10) + seq![digit_char((n as nat) % 10)]);
            assert(final(s)@ =~= old(s)@ + dec(n as nat));
        }
    }
}

/// Appends `k` indent units, matching [`indent`].
fn append_indent(s: &mut String, k: usize)
    ensures
        final(s)@ == old(s)@ + indent(k as nat),
{
    let mut j: usize = 0;
    while j < k
        invariant
            j <= k,
            s@ == old(s)@ + indent(j as nat),
        decreases k - j,
    {
        s.append("        ");
        j = j + 1;
        proof {
            assert(s@ =~= old(s)@ + indent(j as nat));
        }
    }
}

/// Appends `l` as one full output line: the line's characters followed by a
/// newline.
fn push_line(s: &mut String, l: &str)
    ensures
        final(s)@ == old(s)@ + l@ + seq!['\n'],
{
    s.append(l);
    s.append("\n");
    proof {
        reveal_strlit("\n");
        assert(final(s)@ =~= old(s)@ + l@ + seq!['\n']);
    }
}

/// Builds the synthetic entrypoint program for the ordered layout chain
/// `path_group`: imports each layout under a position-derived name, declares
/// the composed `Entrypoint` component that mounts the live-reload hook from
/// `live_reload_import` and nests the layouts outermost-first, then appends
/// the client hydration bootstrap or the server render function, as
/// `is_server` selects.
///
/// The returned text is exactly the joined line model, for every input.
pub fn build_entrypoint(
    path_group: &[String],
    is_server: bool,
    live_reload_import: &str,
) -> (res: String)
    ensures
        res@ == entrypoint_text(views_of(path_group@), is_server, live_reload_import@),
{
    let ghost paths: Seq<Seq<char>> = views_of(path_group@);
    let ghost lr: Seq<char> = live_reload_import@;
    proof {
        assert(paths.len() == path_group@.len());
    }
    let mut s = String::new();
    let ghost mut done: Seq<Seq<char>> = Seq::empty();

    // Preamble: base library import, live-reload import, blank line.
    push_line(&mut s, "import React from 'react';");
    proof {
        lemma_join_push(done, react_import_line());
        done = done.push(react_import_line());
    }
    s.append("import mountLiveReload from '");
    s.append(live_reload_import);
    push_line(&mut s, "';");
    proof {
        assert(s@ =~= join_lines(done) + live_reload_import_line(lr) + seq!['\n']);
        lemma_join_push(done, live_reload_import_line(lr));
        done = done.push(live_reload_import_line(lr));
    }
    push_line(&mut s, "");
    proof {
        reveal_strlit("");
        assert(""@ =~= empty_line());
        lemma_join_push(done, empty_line());
        done = done.push(empty_line());
        assert(done =~= preamble_lines(lr));
    }
    let ghost base1: Seq<Seq<char>> = preamble_lines(lr);

    // One import per chain entry, bound to its position-derived name.
    let mut j: usize = 0;
    while j < path_group.len()
        invariant
            j <= path_group.len(),
            paths == views_of(path_group@),
            s@ == join_lines(done),
            done == base1 + import_lines(paths).take(j as int),
        decreases path_group.len() - j,
    {
        s.append("import Layout");
        append_dec(&mut s, j);
        s.append(" from '");
        let p_j: &String = &path_group[j];
        s.append(p_j.as_str());
        push_line(&mut s, "';");
        proof {
            assert(paths[j as int] == path_group@[j as int]@);
            assert(s@ =~= join_lines(done) + layout_import_line(j as nat, paths[j as int])
                + seq!['\n']);
            lemma_join_push(done, layout_import_line(j as nat, paths[j as int]));
            done = done.push(layout_import_line(j as nat, paths[j as int]));
            assert(import_lines(paths).take(j as int + 1) =~= import_lines(paths).take(
                j as int,
            ).push(layout_import_line(j as nat, paths[j as int])));
            assert(done =~= base1 + import_lines(paths).take(j as int + 1));
        }
        j = j + 1;
    }
    proof {
        assert(import_lines(paths).take(paths.len() as int) =~= import_lines(paths));
    }

    // Head of the composed component declaration.
    push_line(&mut s, "");
    proof {
        reveal_strlit("");
        lemma_join_push(done, empty_line());
        done = done.push(empty_line());
    }
    push_line(&mut s, "const Entrypoint = () => {");
    proof {
        lemma_join_push(done, "const Entrypoint = () => {"@);
        done = done.push("const Entrypoint = () => {"@);
    }
    push_line(
        &mut s,
        "    mountLiveReload({SSR_RENDERING: process.env.SSR_RENDERING, NODE_ENV: process.env.NODE_ENV, LIVE_RELOAD_PORT: process.env.LIVE_RELOAD_PORT});",
    );
    proof {
        lemma_join_push(done, mount_call_line());
        done = done.push(mount_call_line());
    }
    push_line(&mut s, "    return (");
    proof {
        lemma_join_push(done, "    return ("@);
        done = done.push("    return ("@);
        assert(done =~= base1 + import_lines(paths) + head_lines());
    }
    let ghost base2: Seq<Seq<char>> = base1 + import_lines(paths) + head_lines();

    // Opening tags, outermost first, one indent unit per nesting level.
    let nlen = path_group.len();
    let mut i: usize = 0;
    while i < nlen
        invariant
            i <= nlen,
            nlen == paths.len(),
            s@ == join_lines(done),
            done == base2 + open_tag_lines(paths.len()).take(i as int),
        decreases nlen - i,
    {
        append_indent(&mut s, i + 1);
        s.append("<Layout");
        append_dec(&mut s, i);
        push_line(&mut s, ">");
        proof {
            assert(s@ =~= join_lines(done) + open_tag_line(i as nat) + seq!['\n']);
            lemma_join_push(done, open_tag_line(i as nat));
            done = done.push(open_tag_line(i as nat));
            assert(open_tag_lines(paths.len()).take(i as int + 1) =~= open_tag_lines(
                paths.len(),
            ).take(i as int).push(open_tag_line(i as nat)));
            assert(done =~= base2 + open_tag_lines(paths.len()).take(i as int + 1));
        }
        i = i + 1;
    }
    proof {
        assert(open_tag_lines(paths.len()).take(paths.len() as int) =~= open_tag_lines(
            paths.len(),
        ));
    }
    let ghost base3: Seq<Seq<char>> = base2 + open_tag_lines(paths.len());

    // Closing tags, innermost first: exact reverse of the opening order.
    let mut i = nlen;
    while i > 0
        invariant
            i <= nlen,
            nlen == paths.len(),
            s@ == join_lines(done),
            done == base3 + close_tag_lines(paths.len()).take(nlen - i),
        decreases i,
    {
        i = i - 1;
        append_indent(&mut s, i + 1);
        s.append("</Layout");
        append_dec(&mut s, i);
        push_line(&mut s, ">");
        proof {
            assert(s@ =~= join_lines(done) + close_tag_line(i as nat) + seq!['\n']);
            lemma_join_push(done, close_tag_line(i as nat));
            done = done.push(close_tag_line(i as nat));
            assert(close_tag_lines(paths.len())[nlen - i - 1] == close_tag_line(i as nat));
            assert(close_tag_lines(paths.len()).take(nlen - i) =~= close_tag_lines(
                paths.len(),
            ).take(nlen - i - 1).push(close_tag_line(i as nat)));
            assert(done =~= base3 + close_tag_lines(paths.len()).take(nlen - i));
        }
    }
    proof {
        assert(close_tag_lines(paths.len()).take(paths.len() as int) =~= close_tag_lines(
            paths.len(),
        ));
    }

    // Close of the component declaration and blank separator.
    push_line(&mut s, "    );");
    proof {
        lemma_join_push(done, "    );"@);
        done = done.push("    );"@);
    }
    push_line(&mut s, "};");
    proof {
        lemma_join_push(done, "};"@);
        done = done.push("};"@);
    }
    push_line(&mut s, "");
    proof {
        reveal_strlit("");
        lemma_join_push(done, empty_line());
        done = done.push(empty_line());
        assert(done =~= base3 + close_tag_lines(paths.len()) + foot_lines());
    }
    let ghost base4: Seq<Seq<char>> = base3 + close_tag_lines(paths.len()) + foot_lines();

    // Mode-specific bootstrap tail.
    if !is_server {
        push_line(&mut s, "import { hydrateRoot } from 'react-dom/client';");
        proof {
            lemma_join_push(done, "import { hydrateRoot } from 'react-dom/client';"@);
            done = done.push("import { hydrateRoot } from 'react-dom/client';"@);
        }
        push_line(&mut s, "const container = document.getElementById('root');");
        proof {
            lemma_join_push(done, "const container = document.getElementById('root');"@);
            done = done.push("const container = document.getElementById('root');"@);
        }
        push_line(&mut s, "hydrateRoot(container, <Entrypoint />);");
        proof {
            lemma_join_push(done, hydrate_call_line());
            done = done.push(hydrate_call_line());
            assert(done =~= base4 + client_tail_lines());
        }
    } else {
        push_line(&mut s, "// Dynamically import renderToString based on React version");
        proof {
            lemma_join_push(done, "// Dynamically import renderToString based on React version"@);
            done = done.push("// Dynamically import renderToString based on React version"@);
        }
        push_line(&mut s, "async function getRenderToString() {");
        proof {
            lemma_join_push(done, "async function getRenderToString() {"@);
            done = done.push("async function getRenderToString() {"@);
        }
        push_line(&mut s, "  const reactVersion = React.version;");
        proof {
            lemma_join_push(done, "  const reactVersion = React.version;"@);
            done = done.push("  const reactVersion = React.version;"@);
        }
        push_line(&mut s, "  const majorVersion = parseInt(reactVersion.split('.')[0], 10);");
        proof {
            lemma_join_push(done, "  const majorVersion = parseInt(reactVersion.split('.')[0], 10);"@);
            done = done.push("  const majorVersion = parseInt(reactVersion.split('.')[0], 10);"@);
        }
        push_line(&mut s, "");
        proof {
            reveal_strlit("");
            lemma_join_push(done, empty_line());
            done = done.push(empty_line());
        }
        push_line(&mut s, "  if (majorVersion >= 19) {");
        proof {
            lemma_join_push(done, version_branch_line());
            done = done.push(version_branch_line());
        }
        push_line(&mut s, "    return (await import('react-dom/server.edge')).renderToString;");
        proof {
            lemma_join_push(done, edge_import_line());
            done = done.push(edge_import_line());
        }
        push_line(&mut s, "  } else {");
        proof {
            lemma_join_push(done, "  } else {"@);
            done = done.push("  } else {"@);
        }
        push_line(&mut s, "    return (await import('react-dom/server')).renderToString;");
        proof {
            lemma_join_push(done, legacy_import_line());
            done = done.push(legacy_import_line());
        }
        push_line(&mut s, "  }");
        proof {
            lemma_join_push(done, "  }"@);
            done = done.push("  }"@);
        }
        push_line(&mut s, "}");
        proof {
            lemma_join_push(done, "}"@);
            done = done.push("}"@);
        }
        push_line(&mut s, "");
        proof {
            reveal_strlit("");
            lemma_join_push(done, empty_line());
            done = done.push(empty_line());
        }
        push_line(&mut s, "export const Index = async () => {");
        proof {
            lemma_join_push(done, index_export_line());
            done = done.push(index_export_line());
        }
        push_line(&mut s, "  const renderToString = await getRenderToString();");
        proof {
            lemma_join_push(done, "  const renderToString = await getRenderToString();"@);
            done = done.push("  const renderToString = await getRenderToString();"@);
        }
        push_line(&mut s, "  return renderToString(<Entrypoint />);");
        proof {
            lemma_join_push(done, "  return renderToString(<Entrypoint />);"@);
            done = done.push("  return renderToString(<Entrypoint />);"@);
        }
        push_line(&mut s, "};");
        proof {
            lemma_join_push(done, "};"@);
            done = done.push("};"@);
            assert(done =~= base4 + server_tail_lines());
        }
    }
    proof {
        assert(done == base4 + tail_lines(is_server));
        assert(done == entry_lines(paths, is_server, lr));
    }
    s
}

} // verus!
