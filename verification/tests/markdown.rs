use retgui::markdown::{markdown_blocks, render_markdown, MdBlock, MdEvent};
use retgui::resources::{ResourceId, ResourceType};

fn text(depth: usize, s: &str) -> (usize, MdBlock) {
    (depth, MdBlock::Text(s.to_string()))
}

#[test]
fn markdown_builds_nested_content_and_queues_images() {
    let mut pending = Vec::new();
    let blocks = render_markdown(
        "# Heading\n\nPlain **bold** text.\n\n1. first\n2. second\n\n![alt](image.png)\n\n```rust\nfn main() {}\n```\n\n---",
        &mut pending,
    );
    let texts: Vec<String> = blocks
        .iter()
        .filter_map(|(_, b)| match b {
            MdBlock::Text(t) | MdBlock::Heading(_, t) => Some(t.clone()),
            MdBlock::Code { text, .. } => Some(text.clone()),
            _ => None,
        })
        .collect();
    for expected in ["Heading", "Plain bold text.", "1. first", "2. second", "fn main() {}\n"] {
        assert!(texts.iter().any(|t| t == expected), "missing {expected:?}");
    }
    let code_editors = blocks.iter().filter(|(_, b)| matches!(b, MdBlock::Code { .. })).count();
    assert_eq!(code_editors, 1);
    assert!(blocks.contains(&(0, MdBlock::Image(ResourceId::File("image.png".to_string())))));
    assert!(pending.contains(&(ResourceId::File("image.png".to_string()), ResourceType::Image)));
}

#[test]
fn markdown_document_renders_in_order() {
    let blocks = render_markdown(
        "# Heading\n\nPlain **bold** text.\n\n1. first\n2. second\n\n![alt](image.png)\n\n```rust\nfn main() {}\n```\n\n---",
        &mut Vec::new(),
    );
    assert_eq!(
        blocks,
        vec![
            (0, MdBlock::Heading(1, "Heading".to_string())),
            text(0, "Plain bold text."),
            text(2, "1. first"),
            text(2, "2. second"),
            (0, MdBlock::Image(ResourceId::File("image.png".to_string()))),
            (0, MdBlock::Caption("alt".to_string())),
            (0, MdBlock::Code { language: "rust".to_string(), text: "fn main() {}\n".to_string() }),
            (0, MdBlock::Rule),
        ]
    );
}

#[test]
fn markdown_lists_number_from_their_start_and_nest() {
    let blocks = render_markdown("3. three\n4. four\n   - inner\n   - other\n5. five\n", &mut Vec::new());
    assert_eq!(
        blocks,
        vec![text(2, "3. three"), text(2, "4. four"), text(4, "• inner"), text(4, "• other"), text(2, "5. five")]
    );
}

#[test]
fn markdown_web_images_indented_code_and_breaks() {
    let mut pending = vec![(ResourceId::File("first.png".to_string()), ResourceType::Image)];
    let blocks = render_markdown("## Two\n\nsoft\nbreak `code`\n\n    indented\n\n![](https://x.org/a.png)\n", &mut pending);
    assert_eq!(
        pending,
        vec![
            (ResourceId::File("first.png".to_string()), ResourceType::Image),
            (ResourceId::Url("https://x.org/a.png".to_string()), ResourceType::Image),
        ]
    );
    assert_eq!(
        blocks,
        vec![
            (0, MdBlock::Heading(2, "Two".to_string())),
            text(0, "soft break code"),
            (0, MdBlock::Code { language: "plaintext".to_string(), text: "indented\n".to_string() }),
            (0, MdBlock::Image(ResourceId::Url("https://x.org/a.png".to_string()))),
            (0, MdBlock::Caption(String::new())),
        ]
    );
}

#[test]
fn markdown_blocks_follow_the_events() {
    let events = vec![
        MdEvent::StartList(Some(7)),
        MdEvent::Start("Item".to_string()),
        MdEvent::Text("a".to_string()),
        MdEvent::HardBreak,
        MdEvent::Text("b".to_string()),
        MdEvent::End("Item".to_string()),
        MdEvent::Start("Item".to_string()),
        MdEvent::Other,
        MdEvent::End("Item".to_string()),
        MdEvent::End("List(true)".to_string()),
        MdEvent::Rule,
    ];
    assert_eq!(markdown_blocks(&events, &mut Vec::new()), vec![text(2, "7. a\nb"), text(2, "8. "), (0, MdBlock::Rule)]);
}
