//! Packs the loaded files of a folder into a prologue and a numbered series
//! of messages, each holding at most a given number of grapheme clusters.
use vstd::prelude::*;
use crate::file_info::{FileInfo, FileView};
use crate::folder_info::{has_relevant, names_of, FolderInfo, FolderView};
use crate::text::{decimal_of, push_decimal};
use unicode_segmentation::UnicodeSegmentation;

verus! {

/// The human-readable form of a size in bytes, such as `4.00 KiB`.
pub uninterp spec fn human_size_of(n: nat) -> Seq<char>;

/// Relies on `size::Size::from_bytes` and its `Display`: the text depends on
/// the byte count alone.
#[verifier::external_body]
fn human_size(n: usize) -> (r: String)
    ensures
        r@ == human_size_of(n as nat),
{
    size::Size::from_bytes(n).to_string()
}

/// The extended grapheme clusters of a text, in order.
pub uninterp spec fn graphemes_of(s: Seq<char>) -> Seq<Seq<char>>;

/// The views of a sequence of string slices.
pub open spec fn strs_of(v: Seq<&str>) -> Seq<Seq<char>> {
    v.map_values(|s: &str| s@)
}

/// Relies on `UnicodeSegmentation::graphemes` with extended clusters: the
/// clusters are consecutive, non-empty slices that together make up the text.
#[verifier::external_body]
fn graphemes(s: &str) -> (r: Vec<&str>)
    ensures
        strs_of(r@) == graphemes_of(s@),
        strs_of(r@).flatten() == s@,
        forall|i: int| 0 <= i < r@.len() ==> (#[trigger] r@[i])@.len() > 0,
{
    s.graphemes(true).collect()
}

/// The clusters of `s` are non-empty and, concatenated in order, give back
/// `s`: cutting between clusters loses nothing and splits no character.
pub open spec fn clusters_rebuild(s: Seq<char>) -> bool {
    &&& graphemes_of(s).flatten() == s
    &&& forall|i: int| 0 <= i < graphemes_of(s).len() ==> (#[trigger] graphemes_of(s)[i]).len() > 0
}

/// The text put in place of a file's content when there is none.
pub open spec fn placeholder(f: FileView) -> Seq<char> {
    if f.is_binary {
        "[Binary file]"@
    } else if f.too_large {
        "[This file is too large to be loaded]"@
    } else if f.should_load() {
        "[File content could not be loaded]"@
    } else {
        "[Error]"@
    }
}

/// The content of a file, or the placeholder that stands for it.
pub open spec fn body(f: FileView) -> Seq<char> {
    match f.content {
        Some(c) => c,
        None => placeholder(f),
    }
}

/// The block that presents one file in the stream.
pub open spec fn file_block(f: FileView) -> Seq<char> {
    "File: "@ + f.path + "\nSize: "@ + human_size_of(f.size) + "\n--- BEGINNING OF CONTENT ---\n"@
        + body(f) + "\n--- END OF CONTENT ---\n"@
}

/// The blocks of all files that are not ignored, in order.
pub open spec fn content_stream(files: Seq<FileView>) -> Seq<char>
    decreases files.len(),
{
    if files.len() == 0 {
        Seq::empty()
    } else if files.last().ignored {
        content_stream(files.drop_last())
    } else {
        content_stream(files.drop_last()) + file_block(files.last())
    }
}

/// How many chunks of at most `e` clusters `n` clusters make.
pub open spec fn chunk_count(n: nat, e: nat) -> nat {
    if e == 0 {
        0
    } else {
        ((n + e - 1) / e as int) as nat
    }
}

/// The `j`-th chunk (from 0) of the clusters `g`, chunks holding `e` clusters
/// each but the last.
pub open spec fn chunk(g: Seq<Seq<char>>, j: nat, e: nat) -> Seq<char> {
    let start = j * e;
    let end = if (j + 1) * e <= g.len() {
        (j + 1) * e
    } else {
        g.len()
    };
    g.subrange(start as int, end as int).flatten()
}

/// The first line of the `i`-th of `total` messages.
pub open spec fn message_header(i: nat, total: nat) -> Seq<char> {
    "Message "@ + decimal_of(i) + "/"@ + decimal_of(total) + ":\n"@
}

/// The first message: what the folder is, how many messages follow, how the
/// files are framed, and what the receiver is asked to do.
pub open spec fn prologue(path: Seq<char>, size: nat, total: nat, max_chars: nat) -> Seq<char> {
    "[FolderToAI]"@ + "\n\nMessage 1/"@ + decimal_of(total)
        + ":\n\nThis and the message(s) that follow will provide you relevant information about the files within the folder \""@
        + path + "\", which occupies "@ + human_size_of(size) + ". There are "@ + decimal_of(total)
        + " messages in total."@
        + "\n\nAt the beginning of each message, its index will be stated, along with the total number of messages. Each file's content will be between lines that read \"--- BEGINNING OF CONTENT ---\" and \"--- END OF CONTENT ---\". Note that these delimiters may be split in between messages but they will all eventually be there once all the parts get sent."@
        + "\n\nThe messages will contain at most "@ + decimal_of(max_chars)
        + " characters, including line breaks. Please acknowledge that you get all the messages correctly and in sequence, given the indices provided at the beginning of each message. Warn me about any gaps (missing messages) and make sure you receive all "@
        + decimal_of(total) + " of them in order."@
}

/// The single message for a folder without relevant files.
pub open spec fn empty_folder_message(path: Seq<char>) -> Seq<char> {
    "[FolderToAI]\n\nMessage 1/1\n\nThis message will provide you relevant information about the files within the folder "@
        + path + ".\n\nThe folder contains no relevant files."@
}

/// The content messages, after the prologue, for clusters `g` cut in chunks
/// of `e`.
pub open spec fn content_messages(g: Seq<Seq<char>>, e: nat) -> Seq<Seq<char>> {
    let n = chunk_count(g.len(), e);
    Seq::new(n, |j: int| message_header((j + 2) as nat, n + 1) + chunk(g, j as nat, e))
}

/// All messages for a folder, with at most `max_chars` characters per message
/// of which `reserve` are kept for the message header.
pub open spec fn folder_messages(folder: FolderView, max_chars: nat, reserve: nat) -> Seq<
    Seq<char>,
> {
    if !has_relevant(folder.files) {
        seq![empty_folder_message(folder.path)]
    } else {
        let g = graphemes_of(content_stream(folder.files));
        let e = (max_chars - reserve) as nat;
        let n = chunk_count(g.len(), e);
        seq![prologue(folder.path, folder.size, n + 1, max_chars)] + content_messages(g, e)
    }
}

/// The cluster count that the messages of a folder come to: the content
/// stream's clusters, or 0 for a folder without relevant files.
pub open spec fn cluster_count(folder: FolderView) -> nat {
    if has_relevant(folder.files) {
        graphemes_of(content_stream(folder.files)).len()
    } else {
        0
    }
}

proof fn lemma_chunk_count(len: nat, e: nat, j: nat)
    requires
        e > 0,
    ensures
        (j < chunk_count(len, e)) == (j * e < len),
        chunk_count(len, e) == len / e + if len % e == 0 {
            0nat
        } else {
            1nat
        },
        chunk_count(len, e) <= len,
{
    assert((j < (len + e - 1) / e as int) == (j * e < len)) by (nonlinear_arith)
        requires
            e > 0,
    ;
    assert((len + e - 1) / e as int == len / e + if len % e == 0 {
        0int
    } else {
        1int
    }) by (nonlinear_arith)
        requires
            e > 0,
    ;
    assert((len + e - 1) / e as int <= len) by (nonlinear_arith)
        requires
            e > 0,
    ;
}

fn push_block(s: &mut String, f: &FileInfo)
    ensures
        final(s)@ == old(s)@ + file_block(f@),
{
    s.append("File: ");
    s.append(f.filepath.as_str());
    s.append("\nSize: ");
    let size = human_size(f.size_in_bytes);
    s.append(size.as_str());
    s.append("\n--- BEGINNING OF CONTENT ---\n");
    match &f.file_content {
        Some(c) => s.append(c.as_str()),
        None => {
            if f.is_binary {
                s.append("[Binary file]");
            } else if f.file_too_large {
                s.append("[This file is too large to be loaded]");
            } else if f.content_should_be_loaded() {
                s.append("[File content could not be loaded]");
            } else {
                s.append("[Error]");
            }
        },
    }
    s.append("\n--- END OF CONTENT ---\n");
    assert(final(s)@ =~= old(s)@ + file_block(f@));
}

fn build_stream(files: &Vec<FileInfo>) -> (r: String)
    ensures
        r@ == content_stream(files@.map_values(|f: FileInfo| f@)),
{
    let ghost all = files@.map_values(|f: FileInfo| f@);
    let mut s = String::new();
    let mut i: usize = 0;
    while i < files.len()
        invariant
            all == files@.map_values(|f: FileInfo| f@),
            i <= files@.len(),
            s@ == content_stream(all.subrange(0, i as int)),
        decreases files@.len() - i,
    {
        proof {
            assert(all.subrange(0, i + 1).drop_last() =~= all.subrange(0, i as int));
        }
        if !files[i].should_be_ignored {
            push_block(&mut s, &files[i]);
        }
        i += 1;
    }
    assert(all.subrange(0, i as int) =~= all);
    s
}

fn header(i: usize, total: usize) -> (r: String)
    ensures
        r@ == message_header(i as nat, total as nat),
{
    let mut s = String::new();
    s.append("Message ");
    push_decimal(&mut s, i);
    s.append("/");
    push_decimal(&mut s, total);
    s.append(":\n");
    assert(s@ =~= message_header(i as nat, total as nat));
    s
}

fn prologue_text(path: &String, size: usize, total: usize, max_chars: usize) -> (r: String)
    ensures
        r@ == prologue(path@, size as nat, total as nat, max_chars as nat),
{
    let mut s = String::new();
    s.append("[FolderToAI]");
    s.append("\n\nMessage 1/");
    push_decimal(&mut s, total);
    s.append(
        ":\n\nThis and the message(s) that follow will provide you relevant information about the files within the folder \"",
    );
    s.append(path.as_str());
    s.append("\", which occupies ");
    let human = human_size(size);
    s.append(human.as_str());
    s.append(". There are ");
    push_decimal(&mut s, total);
    s.append(" messages in total.");
    s.append(
        "\n\nAt the beginning of each message, its index will be stated, along with the total number of messages. Each file's content will be between lines that read \"--- BEGINNING OF CONTENT ---\" and \"--- END OF CONTENT ---\". Note that these delimiters may be split in between messages but they will all eventually be there once all the parts get sent.",
    );
    s.append("\n\nThe messages will contain at most ");
    push_decimal(&mut s, max_chars);
    s.append(
        " characters, including line breaks. Please acknowledge that you get all the messages correctly and in sequence, given the indices provided at the beginning of each message. Warn me about any gaps (missing messages) and make sure you receive all ",
    );
    push_decimal(&mut s, total);
    s.append(" of them in order.");
    assert(s@ =~= prologue(path@, size as nat, total as nat, max_chars as nat));
    s
}

fn chunk_text(g: &Vec<&str>, start: usize, end: usize, prefix: String) -> (r: String)
    requires
        start <= end <= g@.len(),
    ensures
        r@ == prefix@ + strs_of(g@).subrange(start as int, end as int).flatten(),
{
    let mut s = prefix;
    let mut k: usize = start;
    while k < end
        invariant
            start <= k <= end <= g@.len(),
            s@ == prefix@ + strs_of(g@).subrange(start as int, k as int).flatten(),
        decreases end - k,
    {
        proof {
            let part = strs_of(g@).subrange(start as int, k as int);
            assert(strs_of(g@).subrange(start as int, k + 1) =~= part.push(g@[k as int]@));
            part.lemma_flatten_push(g@[k as int]@);
        }
        s.append(g[k]);
        k += 1;
    }
    s
}

/// Builds the messages for `folder`: with no relevant file, the one message
/// saying so; otherwise the prologue and then the content stream cut into
/// chunks of `max_chars - reserve` grapheme clusters, each behind its header.
/// Fails only when the message count would not fit a `usize`.
pub fn build_messages(folder: &FolderInfo, max_chars: usize, reserve: usize) -> (r: Result<
    Vec<String>,
    (),
>)
    requires
        reserve < max_chars,
    ensures
        (r is Ok) == (chunk_count(cluster_count(folder@), (max_chars - reserve) as nat) < usize::MAX),
        r matches Ok(m) ==> names_of(m@) == folder_messages(
            folder@,
            max_chars as nat,
            reserve as nat,
        ),
        has_relevant(folder@.files) ==> clusters_rebuild(content_stream(folder@.files)),
{
    let ghost fv = folder@;
    if !folder.contains_at_least_one_file_that_should_not_be_ignored() {
        let mut text = String::new();
        text.append(
            "[FolderToAI]\n\nMessage 1/1\n\nThis message will provide you relevant information about the files within the folder ",
        );
        text.append(folder.folder_path.as_str());
        text.append(".\n\nThe folder contains no relevant files.");
        let mut messages: Vec<String> = Vec::new();
        messages.push(text);
        assert(names_of(messages@) =~= folder_messages(fv, max_chars as nat, reserve as nat));
        return Ok(messages);
    }
    let stream = build_stream(&folder.file_infos);
    let g = graphemes(stream.as_str());
    let ghost gs = strs_of(g@);
    proof {
        assert forall|i: int| 0 <= i < gs.len() implies (#[trigger] gs[i]).len() > 0 by {
            assert(gs[i] == g@[i]@);
        }
        assert(clusters_rebuild(content_stream(fv.files)));
    }
    let e = max_chars - reserve;
    let len = g.len();
    proof {
        lemma_chunk_count(len as nat, e as nat, 0);
    }
    let n = len / e + if len % e == 0 {
        0
    } else {
        1
    };
    if n == usize::MAX {
        return Err(());
    }
    let total = n + 1;
    let mut messages: Vec<String> = Vec::new();
    messages.push(prologue_text(&folder.folder_path, folder.size_in_bytes, total, max_chars));
    let ghost expected = content_messages(gs, e as nat);
    let mut j: usize = 0;
    let mut pos: usize = 0;
    while j < n
        invariant
            gs == strs_of(g@),
            gs.len() == len,
            e > 0,
            n == chunk_count(len as nat, e as nat),
            total == n + 1,
            expected == content_messages(gs, e as nat),
            j <= n,
            j < n ==> pos == j * e,
            names_of(messages@) == seq![
                prologue(fv.path, fv.size, total as nat, max_chars as nat),
            ] + expected.subrange(0, j as int),
        decreases n - j,
    {
        proof {
            lemma_chunk_count(len as nat, e as nat, j as nat);
            lemma_chunk_count(len as nat, e as nat, (j + 1) as nat);
            assert((j + 1) * e == j * e + e) by (nonlinear_arith);
        }
        let end = if len - pos >= e {
            pos + e
        } else {
            len
        };
        let m = chunk_text(&g, pos, end, header(j + 2, total));
        proof {
            assert(m@ == expected[j as int]);
        }
        let ghost before = names_of(messages@);
        messages.push(m);
        proof {
            assert(names_of(messages@) =~= before.push(m@));
            assert(expected.subrange(0, j + 1) =~= expected.subrange(0, j as int).push(m@));
        }
        pos = end;
        j += 1;
    }
    assert(expected.subrange(0, j as int) =~= expected);
    assert(names_of(messages@) =~= folder_messages(fv, max_chars as nat, reserve as nat));
    Ok(messages)
}

/// The character budget of one message.
pub const MAX_CHARS_PER_MESSAGE: usize = 4096;

/// Characters of each message kept for its header.
pub const HEADER_RESERVE: usize = 16;

/// The messages for `folder` with the default budget of
/// [`MAX_CHARS_PER_MESSAGE`] characters, [`HEADER_RESERVE`] of them kept for
/// the header (see [`build_messages`]).
pub fn obtain_folder_representation_messages(folder_info: &FolderInfo) -> (r: Result<Vec<String>, ()>)
    ensures
        (r is Ok) == (chunk_count(
            cluster_count(folder_info@),
            (MAX_CHARS_PER_MESSAGE - HEADER_RESERVE) as nat,
        ) < usize::MAX),
        r matches Ok(m) ==> names_of(m@) == folder_messages(
            folder_info@,
            MAX_CHARS_PER_MESSAGE as nat,
            HEADER_RESERVE as nat,
        ),
        has_relevant(folder_info@.files) ==> clusters_rebuild(content_stream(folder_info@.files)),
{
    build_messages(folder_info, MAX_CHARS_PER_MESSAGE, HEADER_RESERVE)
}

/// A folder without any file that is not ignored gives exactly one message,
/// which says so.
pub proof fn law_no_relevant_files_single_message(folder: FolderView, max_chars: nat, reserve: nat)
    requires
        !has_relevant(folder.files),
    ensures
        folder_messages(folder, max_chars, reserve).len() == 1,
        folder_messages(folder, max_chars, reserve)[0] == empty_folder_message(folder.path),
{
}

/// A content stream of exactly twice the per-message cluster budget gives
/// two content messages after the prologue, each made of whole clusters: the
/// first budget's worth, then the second.
pub proof fn law_two_full_chunks(folder: FolderView, max_chars: nat, reserve: nat)
    requires
        reserve < max_chars,
        has_relevant(folder.files),
        graphemes_of(content_stream(folder.files)).len() == 2 * (max_chars - reserve),
    ensures
        ({
            let g = graphemes_of(content_stream(folder.files));
            let e = (max_chars - reserve) as nat;
            let m = folder_messages(folder, max_chars, reserve);
            &&& m.len() == 3
            &&& m[1] == message_header(2, 3) + g.subrange(0, e as int).flatten()
            &&& m[2] == message_header(3, 3) + g.subrange(e as int, (2 * e) as int).flatten()
        }),
{
    let g = graphemes_of(content_stream(folder.files));
    let e = (max_chars - reserve) as nat;
    assert(chunk_count(g.len(), e) == 2) by {
        lemma_chunk_count(g.len(), e, 0);
        assert((2 * e) / e == 2 && (2 * e) % e == 0) by (nonlinear_arith)
            requires
                e > 0,
        ;
    }
    assert(1 * e == e);
    assert((1 + 1) * e == 2 * e);
    assert(0 * e == 0);
}

/// The first `k` chunks of the clusters `g`.
pub open spec fn first_chunks(g: Seq<Seq<char>>, e: nat, k: nat) -> Seq<Seq<char>> {
    Seq::new(k, |j: int| chunk(g, j as nat, e))
}

proof fn lemma_first_chunks(g: Seq<Seq<char>>, e: nat, k: nat)
    requires
        e > 0,
        k <= chunk_count(g.len(), e),
    ensures
        first_chunks(g, e, k).flatten() == g.subrange(
            0,
            if k * e <= g.len() {
                (k * e) as int
            } else {
                g.len() as int
            },
        ).flatten(),
    decreases k,
{
    if k == 0 {
        assert(first_chunks(g, e, 0) =~= Seq::<Seq<char>>::empty());
        assert(g.subrange(0, 0) =~= Seq::<Seq<char>>::empty());
    } else {
        let j = (k - 1) as nat;
        lemma_first_chunks(g, e, j);
        lemma_chunk_count(g.len(), e, j);
        assert(j * e + e == k * e) by (nonlinear_arith)
            requires
                k == j + 1,
        ;
        let start = (j * e) as int;
        let end = if k * e <= g.len() {
            (k * e) as int
        } else {
            g.len() as int
        };
        assert(first_chunks(g, e, k) =~= first_chunks(g, e, j).push(chunk(g, j, e)));
        first_chunks(g, e, j).lemma_flatten_push(chunk(g, j, e));
        assert(g.subrange(0, end) =~= g.subrange(0, start) + g.subrange(start, end));
        vstd::seq_lib::lemma_flatten_concat(g.subrange(0, start), g.subrange(start, end));
    }
}

/// Cutting into chunks loses and splits nothing: each chunk is made of whole
/// clusters, and the chunks, concatenated in order, give back the text of all
/// the clusters.
pub proof fn law_chunks_rebuild_text(g: Seq<Seq<char>>, e: nat)
    requires
        e > 0,
    ensures
        first_chunks(g, e, chunk_count(g.len(), e)).flatten() == g.flatten(),
{
    let n = chunk_count(g.len(), e);
    lemma_first_chunks(g, e, n);
    lemma_chunk_count(g.len(), e, n);
    assert(g.subrange(0, g.len() as int) =~= g);
}

} // verus!
