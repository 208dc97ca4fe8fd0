use extract_tutorial_code::block::CodeBlock;
use extract_tutorial_code::extract::extract_code_blocks_from_markdown;
use extract_tutorial_code::registry::{BlockNotFound, BlockRegistry};

fn block(filename: Option<&str>, content: &str) -> CodeBlock {
    CodeBlock {
        filename: filename.map(str::to_string),
        language: None,
        content: content.to_string(),
    }
}

fn sample() -> BlockRegistry {
    BlockRegistry::new(vec![
        block(None, "0"),
        block(Some("Cargo.toml"), "1"),
        block(Some("final.rs"), "2"),
        block(Some("Cargo.toml"), "3"),
        block(Some(""), "4"),
    ])
}

#[test]
fn find_gives_the_first_block_of_that_name() {
    let registry = sample();
    assert_eq!(registry.find_by_filename("Cargo.toml"), Ok(&block(Some("Cargo.toml"), "1")));
    assert_eq!(registry.find_by_filename("final.rs"), Ok(&block(Some("final.rs"), "2")));
}

#[test]
fn find_fails_where_no_block_has_the_name() {
    let registry = sample();
    assert_eq!(
        registry.find_by_filename("missing.rs"),
        Err(BlockNotFound { filename: "missing.rs".to_string() })
    );
}

#[test]
fn find_wants_the_exact_name() {
    let registry = sample();
    assert!(registry.find_by_filename("cargo.toml").is_err());
    assert!(registry.find_by_filename("Cargo.tom").is_err());
    assert!(registry.find_by_filename("Cargo.toml ").is_err());
    assert!(registry.find_by_filename("final").is_err());
}

#[test]
fn find_empty_name_is_not_an_unnamed_block() {
    let registry = sample();
    assert_eq!(registry.find_by_filename(""), Ok(&block(Some(""), "4")));
    let unnamed = BlockRegistry::new(vec![block(None, "0")]);
    assert_eq!(
        unnamed.find_by_filename(""),
        Err(BlockNotFound { filename: String::new() })
    );
}

#[test]
fn find_in_empty_registry_fails() {
    let registry = BlockRegistry::new(Vec::new());
    assert_eq!(registry.len(), 0);
    assert!(registry.find_by_filename("a.rs").is_err());
}

#[test]
fn registry_keeps_the_blocks_in_order() {
    let registry = sample();
    assert_eq!(registry.len(), 5);
    let contents: Vec<&str> = registry.blocks().iter().map(|b| b.content.as_str()).collect();
    assert_eq!(contents, vec!["0", "1", "2", "3", "4"]);
}

#[test]
fn registry_of_a_document() {
    let source = "```toml title=\"Cargo.toml\"\n[package]\n```\n\n```rust\nfn f() {}\n```\n";
    let registry = BlockRegistry::new(extract_code_blocks_from_markdown(source));
    assert_eq!(registry.len(), 2);
    let found = registry.find_by_filename("Cargo.toml").unwrap();
    assert_eq!(found.content, "[package]\n");
    assert_eq!(found.language, Some("toml".to_string()));
    assert!(registry.find_by_filename("final.rs").is_err());
}
