use folder_to_ai::folder_info::{FolderInfo, ScannedFile};
use folder_to_ai::segment::{build_messages, obtain_folder_representation_messages};
use unicode_segmentation::UnicodeSegmentation;

fn one_file_folder(name: &str, size: usize, content: &[u8]) -> FolderInfo {
    let listing = vec![ScannedFile { dirs: Vec::new(), name: name.to_string(), size: Some(size) }];
    let mut folder = FolderInfo::new(&"root".to_string(), Some(listing), &Vec::new()).unwrap();
    assert!(folder.load_next_file_content_if_required(0, Some(content.to_vec())));
    folder
}

#[test]
fn two_budgets_of_clusters_give_two_chunks_without_splitting_an_emoji() {
    let budget: usize = 60;
    let family = "\u{1F468}\u{200D}\u{1F469}\u{200D}\u{1F467}";
    let prefix = "File: e.txt\nSize: 5 bytes\n--- BEGINNING OF CONTENT ---\n";
    let suffix = "\n--- END OF CONTENT ---\n";
    let p = prefix.chars().count();
    let s = suffix.chars().count();
    // the family emoji is the last cluster of the first chunk
    let before = budget - 1 - p;
    let after = 2 * budget - p - s - before - 1;
    let content = format!("{}{}{}", "x".repeat(before), family, "y".repeat(after));
    let folder = one_file_folder("e.txt", 5, content.as_bytes());
    let stream = format!("{}{}{}", prefix, content, suffix);
    assert_eq!(stream.graphemes(true).count(), 2 * budget);

    let messages = build_messages(&folder, budget + 4, 4).unwrap();
    assert_eq!(messages.len(), 3);
    assert!(messages[0].starts_with("[FolderToAI]\n\nMessage 1/3:\n\n"));
    let first = format!("Message 2/3:\n{}{}{}", prefix, "x".repeat(before), family);
    assert_eq!(messages[1], first);
    let second = format!("Message 3/3:\n{}{}", "y".repeat(after), suffix);
    assert_eq!(messages[2], second);
}

#[test]
fn prologue_is_reproduced_exactly() {
    let folder = one_file_folder("a.txt", 5, b"hello");
    let messages = obtain_folder_representation_messages(&folder).unwrap();
    assert_eq!(messages.len(), 2);
    let expected = "[FolderToAI]\n\nMessage 1/2:\n\nThis and the message(s) that follow will provide you relevant information about the files within the folder \"root\", which occupies 5 bytes. There are 2 messages in total.\n\nAt the beginning of each message, its index will be stated, along with the total number of messages. Each file's content will be between lines that read \"--- BEGINNING OF CONTENT ---\" and \"--- END OF CONTENT ---\". Note that these delimiters may be split in between messages but they will all eventually be there once all the parts get sent.\n\nThe messages will contain at most 4096 characters, including line breaks. Please acknowledge that you get all the messages correctly and in sequence, given the indices provided at the beginning of each message. Warn me about any gaps (missing messages) and make sure you receive all 2 of them in order.";
    assert_eq!(messages[0], expected);
    assert_eq!(
        messages[1],
        "Message 2/2:\nFile: a.txt\nSize: 5 bytes\n--- BEGINNING OF CONTENT ---\nhello\n--- END OF CONTENT ---\n"
    );
}

#[test]
fn chunk_count_rounds_up() {
    // 55 + 3 + 24 = 82 clusters in chunks of 40 make 3 chunks
    let folder = one_file_folder("e.txt", 5, b"abc");
    let messages = build_messages(&folder, 41, 1).unwrap();
    assert_eq!(messages.len(), 4);
    assert!(messages[3].starts_with("Message 4/4:\n"));
    let rebuilt: String = messages[1..]
        .iter()
        .map(|m| m.split_once('\n').unwrap().1.to_string())
        .collect();
    assert_eq!(
        rebuilt,
        "File: e.txt\nSize: 5 bytes\n--- BEGINNING OF CONTENT ---\nabc\n--- END OF CONTENT ---\n"
    );
}

#[test]
fn human_size_appears_in_the_prologue() {
    let folder = one_file_folder("big.log", 2048, b"x");
    let messages = obtain_folder_representation_messages(&folder).unwrap();
    assert!(messages[0].contains("which occupies 2.00 KiB"));
    assert!(messages[1].contains("Size: 2.00 KiB\n"));
}
