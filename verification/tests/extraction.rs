use extract_tutorial_code::block::CodeBlock;
use extract_tutorial_code::events::{surface, BlockEvent, MarkupEvent};
use extract_tutorial_code::extract::{
    extract_code_blocks, extract_code_blocks_from_markdown, Extractor,
};

fn some(s: &str) -> Option<String> {
    Some(s.to_string())
}

fn open(info: &str) -> BlockEvent {
    BlockEvent::FenceOpen(info.to_string())
}

fn text(fragment: &str) -> BlockEvent {
    BlockEvent::Text(fragment.to_string())
}

fn block(filename: Option<&str>, language: Option<&str>, content: &str) -> CodeBlock {
    CodeBlock {
        filename: filename.map(str::to_string),
        language: language.map(str::to_string),
        content: content.to_string(),
    }
}

fn tutorial() -> String {
    let lines = [
        "# Crowdfunding",
        "",
        "Some prose with `inline code` and *emphasis*.",
        "",
        "```toml title=\"Cargo.toml\"",
        "[package]",
        "name = \"crowdfunding\"",
        "",
        "[dependencies]",
        "```",
        "",
        "- a list item",
        "- another one",
        "",
        "```rust filename=\"final.rs\"",
        "fn main() {",
        "    println!(\"hi\");",
        "}",
        "```",
        "",
        "```crowdfunding-init.scen.json",
        "{ \"steps\": [] }",
        "```",
        "",
        "```",
        "no info",
        "```",
        "",
    ];
    lines.join("\n")
}

#[test]
fn markdown_blocks_in_document_order() {
    let blocks = extract_code_blocks_from_markdown(&tutorial());
    assert_eq!(blocks.len(), 4);
    assert_eq!(
        blocks[0],
        block(
            Some("Cargo.toml"),
            Some("toml"),
            "[package]\nname = \"crowdfunding\"\n\n[dependencies]\n"
        )
    );
    assert_eq!(
        blocks[1],
        block(Some("final.rs"), Some("rust"), "fn main() {\n    println!(\"hi\");\n}\n")
    );
    assert_eq!(
        blocks[2],
        block(Some("crowdfunding-init.scen.json"), Some("json"), "{ \"steps\": [] }\n")
    );
    assert_eq!(blocks[3], block(None, None, "no info\n"));
}

#[test]
fn markdown_without_code_blocks() {
    assert!(extract_code_blocks_from_markdown("").is_empty());
    assert!(extract_code_blocks_from_markdown("# Title\n\nJust *prose* and `code spans`.\n")
        .is_empty());
}

#[test]
fn markdown_indented_block_has_no_metadata() {
    let blocks = extract_code_blocks_from_markdown("Prose.\n\n    let x = 1;\n    let y = 2;\n");
    assert_eq!(blocks.len(), 1);
    assert_eq!(blocks[0].language, None);
    assert_eq!(blocks[0].filename, None);
    assert_eq!(blocks[0].content, "let x = 1;\nlet y = 2;\n");
}

#[test]
fn markdown_content_keeps_line_breaks_and_indentation() {
    let source = "```rust\nfn f() {\n\n    g();\n\t// tab\n}\n\n```\n";
    let blocks = extract_code_blocks_from_markdown(source);
    assert_eq!(blocks.len(), 1);
    assert_eq!(blocks[0].content, "fn f() {\n\n    g();\n\t// tab\n}\n\n");
}

#[test]
fn markdown_empty_block() {
    let blocks = extract_code_blocks_from_markdown("```rust\n```\n");
    assert_eq!(blocks, vec![block(None, Some("rust"), "")]);
}

#[test]
fn markdown_fence_inside_block_is_content() {
    let source = "````md\n```rust\ninner\n```\n````\n";
    let blocks = extract_code_blocks_from_markdown(source);
    assert_eq!(blocks, vec![block(None, Some("md"), "```rust\ninner\n```\n")]);
}

#[test]
fn markdown_block_inside_list_item() {
    let source = "- item\n\n  ```sh title=run.sh\n  echo hi\n  ```\n";
    let blocks = extract_code_blocks_from_markdown(source);
    assert_eq!(blocks, vec![block(Some("run.sh"), Some("sh"), "echo hi\n")]);
}

#[test]
fn markdown_fence_left_open_gives_no_record() {
    assert!(extract_code_blocks_from_markdown("```rust title=\"a.rs\"\nfn main() {}\n").is_empty());
    assert!(extract_code_blocks_from_markdown("Prose.\n\n```sh\necho hi").is_empty());
    assert!(extract_code_blocks_from_markdown("```rust\n").is_empty());
    assert!(extract_code_blocks_from_markdown("```rust").is_empty());
    assert!(extract_code_blocks_from_markdown("~~~\nA\n\n\n").is_empty());
}

#[test]
fn markdown_trailing_fence_left_open_gives_no_record() {
    let blocks = extract_code_blocks_from_markdown("```\nA\n```\n\n```rust\nB\n");
    assert_eq!(blocks, vec![block(None, None, "A\n")]);
    let blocks = extract_code_blocks_from_markdown("```a.rs\n1\n```\n\n```toml\n[package]\n");
    assert_eq!(blocks, vec![block(Some("a.rs"), Some("rs"), "1\n")]);
}

#[test]
fn markdown_fence_that_ends_with_its_quote_gives_no_record() {
    let source = "> ```rust\n> let x = 1;\n\nAfter the quote.\n";
    assert!(extract_code_blocks_from_markdown(source).is_empty());
    let source = "- ```rust\n  let x = 1;\n\nAfter the list.\n";
    assert!(extract_code_blocks_from_markdown(source).is_empty());
}

#[test]
fn markdown_block_after_a_fence_left_open_is_extracted() {
    let source = "> ```rust\n> let x = 1;\n\nProse.\n\n```toml title=a.toml\nk = 1\n```\n";
    let blocks = extract_code_blocks_from_markdown(source);
    assert_eq!(blocks, vec![block(Some("a.toml"), Some("toml"), "k = 1\n")]);
}

#[test]
fn markdown_line_that_only_looks_like_a_closing_fence() {
    assert!(extract_code_blocks_from_markdown("````\nA\n```").is_empty());
    assert!(extract_code_blocks_from_markdown("```\nA\n~~~").is_empty());
    assert!(extract_code_blocks_from_markdown("```\nA\n    ```").is_empty());
    assert!(extract_code_blocks_from_markdown("```\nA\n``` x").is_empty());
    assert!(extract_code_blocks_from_markdown("```\nA\n> ```").is_empty());
}

#[test]
fn markdown_closing_fence_forms() {
    let expected = vec![block(None, None, "A\n")];
    assert_eq!(extract_code_blocks_from_markdown("```\nA\n```"), expected);
    assert_eq!(extract_code_blocks_from_markdown("```\nA\n```\n"), expected);
    assert_eq!(extract_code_blocks_from_markdown("```\nA\n```   \n"), expected);
    assert_eq!(extract_code_blocks_from_markdown("```\nA\n`````\n"), expected);
    assert_eq!(extract_code_blocks_from_markdown("```\nA\n   ```\n"), expected);
    assert_eq!(extract_code_blocks_from_markdown("~~~\nA\n~~~~\n"), expected);
    assert_eq!(extract_code_blocks_from_markdown("```\r\nA\r\n```\r\n"), expected);
    assert_eq!(extract_code_blocks_from_markdown("> ```\n> A\n> ```\n"), expected);
    assert_eq!(extract_code_blocks_from_markdown(">```\n>A\n>```\n"), expected);
    assert_eq!(extract_code_blocks_from_markdown("1. ```\n   A\n   ```\n"), expected);
    assert_eq!(extract_code_blocks_from_markdown("- > ```\n  > A\n  > ```\n"), expected);
    assert_eq!(extract_code_blocks_from_markdown("é\n\n```\nA\n```\n"), expected);
}

#[test]
fn markdown_closed_block_with_non_ascii_text() {
    let blocks = extract_code_blocks_from_markdown("日本語\n\n```txt\né日本\n```\n");
    assert_eq!(blocks, vec![block(None, Some("txt"), "é日本\n")]);
    assert!(extract_code_blocks_from_markdown("日本語\n\n```txt\né日本\n").is_empty());
}

#[test]
fn markdown_extraction_twice_is_equal() {
    let first = extract_code_blocks_from_markdown(&tutorial());
    let second = extract_code_blocks_from_markdown(&tutorial());
    assert_eq!(first.len(), second.len());
    for i in 0..first.len() {
        assert_eq!(first[i], second[i]);
    }
}

#[test]
fn events_one_block() {
    let events = vec![open("rust title=\"foo.rs\""), text("fn main() {}\n"), BlockEvent::FenceClose];
    assert_eq!(
        extract_code_blocks(&events),
        vec![block(Some("foo.rs"), Some("rust"), "fn main() {}\n")]
    );
}

#[test]
fn events_fragments_are_joined_as_they_are() {
    let events = vec![
        open("txt"),
        text("a\n"),
        text(""),
        text("  b"),
        text("\r\n"),
        text("c"),
        BlockEvent::FenceClose,
    ];
    assert_eq!(extract_code_blocks(&events), vec![block(None, Some("txt"), "a\n  b\r\nc")]);
}

#[test]
fn events_blocks_keep_their_order() {
    let events = vec![
        text("prose"),
        open("a.rs"),
        text("1"),
        BlockEvent::FenceClose,
        text("more prose"),
        open(""),
        text("2"),
        BlockEvent::FenceClose,
        open("sh"),
        BlockEvent::FenceClose,
        text("end"),
    ];
    assert_eq!(
        extract_code_blocks(&events),
        vec![
            block(Some("a.rs"), Some("rs"), "1"),
            block(None, None, "2"),
            block(None, Some("sh"), ""),
        ]
    );
}

#[test]
fn events_unterminated_fence_gives_no_record() {
    let events = vec![open("rust"), text("fn main() {}\n")];
    assert!(extract_code_blocks(&events).is_empty());
    let events = vec![
        open("a.rs"),
        text("1"),
        BlockEvent::FenceClose,
        open("rust"),
        text("fn main() {}\n"),
    ];
    assert_eq!(extract_code_blocks(&events), vec![block(Some("a.rs"), Some("rs"), "1")]);
}

#[test]
fn events_text_outside_is_dropped() {
    let events = vec![text("prose"), text("more")];
    assert!(extract_code_blocks(&events).is_empty());
}

#[test]
fn events_close_outside_does_nothing() {
    let events = vec![
        BlockEvent::FenceClose,
        open("rust"),
        text("x"),
        BlockEvent::FenceClose,
        BlockEvent::FenceClose,
    ];
    assert_eq!(extract_code_blocks(&events), vec![block(None, Some("rust"), "x")]);
}

#[test]
fn events_fence_inside_block_starts_over() {
    let events = vec![
        open("rust title=a.rs"),
        text("dropped"),
        open("toml"),
        text("kept"),
        BlockEvent::FenceClose,
    ];
    assert_eq!(extract_code_blocks(&events), vec![block(None, Some("toml"), "kept")]);
}

#[test]
fn events_none() {
    assert!(extract_code_blocks(&Vec::new()).is_empty());
}

#[test]
fn extractor_steps() {
    let mut extractor = Extractor::new();
    assert!(!extractor.in_block());
    extractor.step(&text("prose"));
    assert!(!extractor.in_block());
    extractor.step(&open("foo.rs"));
    assert!(extractor.in_block());
    extractor.step(&text("a"));
    extractor.step(&text("b"));
    assert!(extractor.in_block());
    extractor.step(&BlockEvent::FenceClose);
    assert!(!extractor.in_block());
    extractor.step(&open("rust"));
    assert!(extractor.in_block());
    assert_eq!(extractor.finish(), vec![block(Some("foo.rs"), Some("rs"), "ab")]);
}

#[test]
fn extractor_without_events() {
    assert!(Extractor::new().finish().is_empty());
}

fn fenced(info: &str, start: usize, end: usize) -> MarkupEvent {
    MarkupEvent::FencedCodeStart { info: info.to_string(), start, end }
}

fn markup_text(fragment: &str, start: usize, end: usize) -> MarkupEvent {
    MarkupEvent::Text { text: fragment.to_string(), start, end }
}

#[test]
fn surface_drops_other_events_and_keeps_the_order() {
    let source = "Title\n\n```rust\ncode\n```\n\n    more\n";
    let markup = vec![
        MarkupEvent::Other,
        markup_text("Title", 0, 5),
        MarkupEvent::Other,
        fenced("rust", 7, 23),
        markup_text("code\n", 15, 20),
        MarkupEvent::CodeEnd,
        MarkupEvent::Other,
        MarkupEvent::IndentedCodeStart,
        markup_text("more\n", 29, 34),
        MarkupEvent::CodeEnd,
    ];
    assert_eq!(
        surface(source, markup),
        vec![
            text("Title"),
            open("rust"),
            text("code\n"),
            BlockEvent::FenceClose,
            open(""),
            text("more\n"),
            BlockEvent::FenceClose,
        ]
    );
}

#[test]
fn surface_of_nothing() {
    assert!(surface("", Vec::new()).is_empty());
    assert!(surface("# T\n", vec![MarkupEvent::Other, MarkupEvent::Other]).is_empty());
}

#[test]
fn surface_keeps_the_end_of_a_fence_left_open_back() {
    let source = "```rust\ncode\n";
    let markup = vec![fenced("rust", 0, 13), markup_text("code\n", 8, 13), MarkupEvent::CodeEnd];
    assert_eq!(surface(source, markup), vec![open("rust"), text("code\n")]);
    let markup = vec![fenced("rust", 0, 8), MarkupEvent::CodeEnd];
    assert_eq!(surface("```rust\n", markup), vec![open("rust")]);
}

#[test]
fn surface_closes_an_empty_fenced_block() {
    let markup = vec![fenced("rust", 0, 11), MarkupEvent::CodeEnd];
    assert_eq!(surface("```rust\n```\n", markup), vec![open("rust"), BlockEvent::FenceClose]);
}

#[test]
fn surface_wants_a_closing_run_as_long_as_the_opening_one() {
    let markup = vec![fenced("", 0, 10), markup_text("A\n", 5, 7), MarkupEvent::CodeEnd];
    assert_eq!(surface("````\nA\n```", markup), vec![open(""), text("A\n")]);
    let markup = vec![fenced("", 0, 11), markup_text("A\n", 5, 7), MarkupEvent::CodeEnd];
    assert_eq!(
        surface("````\nA\n````", markup),
        vec![open(""), text("A\n"), BlockEvent::FenceClose]
    );
}

#[test]
fn surface_always_closes_an_indented_block() {
    let markup = vec![MarkupEvent::IndentedCodeStart, markup_text("x\n", 4, 6), MarkupEvent::CodeEnd];
    assert_eq!(surface("    x\n", markup), vec![open(""), text("x\n"), BlockEvent::FenceClose]);
    let markup = vec![
        fenced("a", 0, 5),
        MarkupEvent::CodeEnd,
        MarkupEvent::IndentedCodeStart,
        MarkupEvent::CodeEnd,
    ];
    assert_eq!(surface("```a\n", markup), vec![open("a"), open(""), BlockEvent::FenceClose]);
}

#[test]
fn surface_with_places_outside_the_text_surfaces_no_close() {
    let markup = vec![fenced("a", 0, 99), markup_text("x", 50, 60), MarkupEvent::CodeEnd];
    assert_eq!(surface("```a\nx\n```\n", markup), vec![open("a"), text("x")]);
    let markup = vec![fenced("a", 7, 3), MarkupEvent::CodeEnd];
    assert_eq!(surface("```a\nx\n```\n", markup), vec![open("a")]);
}
