use entrypoint_gen::code_gen::build_entrypoint;

/// Mirrors the straightforward template assembly of the generated program,
/// used as an independent oracle for whole-output comparisons.
fn expected_text(path_group: &[String], is_server: bool, live_reload_import: &str) -> String {
    let mut out = String::from("import React from 'react';\n");
    out += &format!("import mountLiveReload from '{}';\n\n", live_reload_import);
    for (j, path) in path_group.iter().enumerate() {
        out += &format!("import Layout{} from '{}';\n", j, path);
    }
    out += "\nconst Entrypoint = () => {\n";
    out += "    mountLiveReload({SSR_RENDERING: process.env.SSR_RENDERING, NODE_ENV: process.env.NODE_ENV, LIVE_RELOAD_PORT: process.env.LIVE_RELOAD_PORT});\n";
    out += "    return (\n";
    for (i, _path) in path_group.iter().enumerate() {
        out += &"        ".repeat(i + 1);
        out += &format!("<Layout{}>\n", i);
    }
    for (i, _path) in path_group.iter().enumerate().rev() {
        out += &"        ".repeat(i + 1);
        out += &format!("</Layout{}>\n", i);
    }
    out += "    );\n";
    out += "};\n\n";
    if !is_server {
        out += "import { hydrateRoot } from 'react-dom/client';\n";
        out += "const container = document.getElementById('root');\n";
        out += "hydrateRoot(container, <Entrypoint />);\n";
    } else {
        out += "// Dynamically import renderToString based on React version\n";
        out += "async function getRenderToString() {\n";
        out += "  const reactVersion = React.version;\n";
        out += "  const majorVersion = parseInt(reactVersion.split('.')[0], 10);\n\n";
        out += "  if (majorVersion >= 19) {\n";
        out += "    return (await import('react-dom/server.edge')).renderToString;\n";
        out += "  } else {\n";
        out += "    return (await import('react-dom/server')).renderToString;\n";
        out += "  }\n";
        out += "}\n\n";
        out += "export const Index = async () => {\n";
        out += "  const renderToString = await getRenderToString();\n";
        out += "  return renderToString(<Entrypoint />);\n";
        out += "};\n";
    }
    out
}

fn count_occurrences(haystack: &str, needle: &str) -> usize {
    haystack.match_indices(needle).count()
}

#[test]
fn client_single_layout() {
    let chain = vec![String::from("./Layout")];
    let out = build_entrypoint(&chain, false, "./lr");
    let expected = "import React from 'react';\n\
                    import mountLiveReload from './lr';\n\
                    \n\
                    import Layout0 from './Layout';\n\
                    \n\
                    const Entrypoint = () => {\n\
                    \x20   mountLiveReload({SSR_RENDERING: process.env.SSR_RENDERING, NODE_ENV: process.env.NODE_ENV, LIVE_RELOAD_PORT: process.env.LIVE_RELOAD_PORT});\n\
                    \x20   return (\n\
                    \x20       <Layout0>\n\
                    \x20       </Layout0>\n\
                    \x20   );\n\
                    };\n\
                    \n\
                    import { hydrateRoot } from 'react-dom/client';\n\
                    const container = document.getElementById('root');\n\
                    hydrateRoot(container, <Entrypoint />);\n";
    assert_eq!(out, expected);
    assert!(out.contains("import Layout0 from './Layout';"));
    assert!(out.contains("import mountLiveReload from './lr';"));
    assert!(!out.contains("export const Index"));
    assert!(out.ends_with("hydrateRoot(container, <Entrypoint />);\n"));
}

#[test]
fn server_two_layouts() {
    let chain = vec![String::from("./A"), String::from("./B")];
    let out = build_entrypoint(&chain, true, "./live");
    assert_eq!(out, expected_text(&chain, true, "./live"));
    // B nests inside A exactly once, in opening order A then B and closing
    // order B then A.
    let open_a = out.find("<Layout0>").unwrap();
    let open_b = out.find("<Layout1>").unwrap();
    let close_b = out.find("</Layout1>").unwrap();
    let close_a = out.find("</Layout0>").unwrap();
    assert!(open_a < open_b && open_b < close_b && close_b < close_a);
    assert_eq!(count_occurrences(&out, "<Layout1>"), 1);
    assert_eq!(count_occurrences(&out, "</Layout1>"), 1);
    // The exported render function appears exactly once, with exactly one
    // version decision.
    assert_eq!(count_occurrences(&out, "export const Index = async () => {"), 1);
    assert_eq!(count_occurrences(&out, "majorVersion >= 19"), 1);
    assert!(!out.contains("hydrateRoot"));
}

#[test]
fn empty_chain_client() {
    let chain: Vec<String> = vec![];
    let out = build_entrypoint(&chain, false, "./lr");
    assert_eq!(out, expected_text(&chain, false, "./lr"));
    assert!(!out.contains("Layout"));
    assert_eq!(count_occurrences(&out, "import Layout"), 0);
    assert_eq!(count_occurrences(&out, "<Layout"), 0);
    assert_eq!(count_occurrences(&out, "</Layout"), 0);
    // The composed component is still declared and returned markup is empty.
    assert!(out.contains("const Entrypoint = () => {\n    mountLiveReload("));
    assert!(out.contains("    return (\n    );\n};\n"));
}

#[test]
fn empty_chain_server() {
    let chain: Vec<String> = vec![];
    let out = build_entrypoint(&chain, true, "./lr");
    assert_eq!(out, expected_text(&chain, true, "./lr"));
    assert_eq!(count_occurrences(&out, "import Layout"), 0);
    assert_eq!(count_occurrences(&out, "<Layout"), 0);
    assert!(out.contains("    return (\n    );\n};\n"));
    assert!(out.ends_with("  return renderToString(<Entrypoint />);\n};\n"));
}

#[test]
fn live_reload_wired_once_in_both_modes() {
    let chain = vec![String::from("./X"), String::from("./Y"), String::from("./Z")];
    for is_server in [false, true] {
        let out = build_entrypoint(&chain, is_server, "./reload");
        assert_eq!(count_occurrences(&out, "import mountLiveReload from './reload';"), 1);
        assert_eq!(
            count_occurrences(
                &out,
                "mountLiveReload({SSR_RENDERING: process.env.SSR_RENDERING, NODE_ENV: process.env.NODE_ENV, LIVE_RELOAD_PORT: process.env.LIVE_RELOAD_PORT});"
            ),
            1
        );
    }
}

#[test]
fn mode_tails_mutually_exclusive() {
    let chain = vec![String::from("./Base")];
    let client = build_entrypoint(&chain, false, "./lr");
    let server = build_entrypoint(&chain, true, "./lr");
    assert_eq!(count_occurrences(&client, "hydrateRoot(container, <Entrypoint />);"), 1);
    assert_eq!(count_occurrences(&client, "export const Index"), 0);
    assert_eq!(count_occurrences(&server, "export const Index = async () => {"), 1);
    assert_eq!(count_occurrences(&server, "hydrateRoot"), 0);
}

#[test]
fn server_version_branch_once_with_two_paths() {
    let chain = vec![String::from("./Base"), String::from("./Page")];
    let out = build_entrypoint(&chain, true, "./lr");
    assert_eq!(count_occurrences(&out, "if (majorVersion >= 19) {"), 1);
    assert_eq!(count_occurrences(&out, "import('react-dom/server.edge')"), 1);
    assert_eq!(count_occurrences(&out, "import('react-dom/server')"), 1);
    assert_eq!(count_occurrences(&out, "await import("), 2);
}

#[test]
fn tags_balanced_and_reversed() {
    let chain: Vec<String> = (0..4).map(|i| format!("./L{}", i)).collect();
    let out = build_entrypoint(&chain, false, "./lr");
    assert_eq!(out, expected_text(&chain, false, "./lr"));
    assert_eq!(count_occurrences(&out, "<Layout"), 4);
    assert_eq!(count_occurrences(&out, "</Layout"), 4);
    for i in 0..4usize {
        let open = out.find(&format!("<Layout{}>", i)).unwrap();
        let close = out.find(&format!("</Layout{}>", i)).unwrap();
        assert!(open < close);
        // One indent unit per nesting level.
        let line_start = out[..open].rfind('\n').unwrap() + 1;
        assert_eq!(open - line_start, 8 * (i + 1));
    }
    // Closing order is the exact reverse of opening order.
    let closes: Vec<usize> = (0..4usize)
        .map(|i| out.find(&format!("</Layout{}>", i)).unwrap())
        .collect();
    assert!(closes[3] < closes[2] && closes[2] < closes[1] && closes[1] < closes[0]);
}

#[test]
fn two_digit_position_names() {
    let chain: Vec<String> = (0..12).map(|i| format!("./M{}", i)).collect();
    let out = build_entrypoint(&chain, true, "./lr");
    assert_eq!(out, expected_text(&chain, true, "./lr"));
    assert!(out.contains("import Layout10 from './M10';"));
    assert!(out.contains("import Layout11 from './M11';"));
    assert_eq!(count_occurrences(&out, "<Layout11>"), 1);
    assert_eq!(count_occurrences(&out, "</Layout11>"), 1);
}

#[test]
fn layout_references_passed_through_verbatim() {
    let chain = vec![String::from("a b/c-d_e.js"), String::from("")];
    let out = build_entrypoint(&chain, false, "weird reload/path.ts");
    assert_eq!(out, expected_text(&chain, false, "weird reload/path.ts"));
    assert!(out.contains("import Layout0 from 'a b/c-d_e.js';"));
    assert!(out.contains("import Layout1 from '';"));
    assert!(out.contains("import mountLiveReload from 'weird reload/path.ts';"));
}
