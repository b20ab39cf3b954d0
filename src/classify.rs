//! Deciding whether a file holds binary data: first by its extension, then,
//! for unknown extensions, by its leading signature and by the share of
//! non-text bytes in its first kilobytes.
use vstd::prelude::*;
use crate::text::same_text;

verus! {

/// Extensions whose files are binary, whatever they hold.
pub open spec fn binary_extensions() -> Seq<&'static str> {
    seq![
        "exe", "bin", "msi", "apk", "ipa", "deb", "rpm", "pkg", "dmg", "appx", "appxbundle",
        "zip", "rar", "7z", "gz", "bz2", "xz", "tar", "tgz", "tbz2", "txz", "lzma", "lz4", "zst",
        "png", "jpg", "jpeg", "gif", "bmp", "tiff", "webp", "heic", "heif", "ico", "cur", "psd",
        "xcf", "svgz",
        "mp3", "mp4", "wav", "ogg", "flac", "midi", "aac", "m4a", "mov", "avi", "mkv", "webm",
        "mpg", "mpeg", "rmvb", "rm", "ra", "ram", "3gp", "3g2", "asf", "wmv", "wma", "flv", "swf",
        "db", "sqlite", "sqlite3", "mdb", "accdb", "dll", "so", "dylib", "o", "a", "lib", "sys",
        "vmdk", "vdi", "vhd", "vhdx", "iso", "img",
        "pdf",
        "pdb",
    ]
}

/// Extensions whose files are text, whatever they hold.
pub open spec fn text_extensions() -> Seq<&'static str> {
    seq![
        "txt", "md", "rst", "tex", "bib", "sty", "cls", "log", "csv", "tsv", "toml",
        "html", "css", "js", "json", "yaml", "yml", "xml",
        "py", "java", "c", "cpp", "h", "hpp", "cc", "cxx", "swift", "go", "rb", "php", "perl", "pl",
        "rs", "rlib", "lua", "tcl", "awk", "sed", "m", "m4", "sh", "bash", "zsh", "fish",
        "kt", "kts", "groovy", "scala", "sbt", "scm", "lisp", "el", "emacs",
        "bat", "cmd", "ps1", "psm1", "vbs", "vbscript",
        "ini", "conf", "cfg", "properties", "sql", "env", "dotenv",
        "pom", "gradle", "build.gradle", "build.xml", "Makefile", "CMakeLists.txt",
        "gitignore", "gitattributes",
        "iml", "project", "settings.json", "vscode", "idea",
        "f90", "f", "f03", "f08", "f77", "f95", "for", "fpp", "creole", "feature", "cu", "cuh",
        "pyx", "pxd", "pxi", "erl", "es", "escript", "hrl", "xrl", "yrl", "fs", "fsi", "fsx",
        "fx", "flux", "g", "gap", "gd", "gi", "tst", "glsl", "fp", "frag", "frg", "fsh", "rno",
        "roff", "gvy", "gsp", "hcl", "tf", "hlsl", "fxh", "hlsli", "rdoc", "rbbas", "rbfrm",
        "rbmnu", "rbres", "rbtbar", "rbuistate", "rhtml", "raml", "qml", "qbs", "pro", "pri",
        "r", "rd", "rsx", "gcode", "gco", "gams", "gms", "mtml", "muf", "maxscript", "ms", "mcr",
    ]
}

/// Whether `e` is one of the entries of `table`.
pub open spec fn listed(table: Seq<&'static str>, e: Seq<char>) -> bool {
    exists|i: int| 0 <= i < table.len() && (#[trigger] table[i])@ == e
}

/// What a lower-cased extension alone says: `Some(true)` for binary,
/// `Some(false)` for text, `None` when it is in neither table.
pub open spec fn extension_verdict(lowered: Seq<char>) -> Option<bool> {
    if listed(binary_extensions(), lowered) {
        Some(true)
    } else if listed(text_extensions(), lowered) {
        Some(false)
    } else {
        None
    }
}

fn binary_extension_table() -> (r: Vec<&'static str>)
    ensures
        r@ == binary_extensions(),
{
    let r = vec![
        "exe", "bin", "msi", "apk", "ipa", "deb", "rpm", "pkg", "dmg", "appx", "appxbundle",
        "zip", "rar", "7z", "gz", "bz2", "xz", "tar", "tgz", "tbz2", "txz", "lzma", "lz4", "zst",
        "png", "jpg", "jpeg", "gif", "bmp", "tiff", "webp", "heic", "heif", "ico", "cur", "psd",
        "xcf", "svgz",
        "mp3", "mp4", "wav", "ogg", "flac", "midi", "aac", "m4a", "mov", "avi", "mkv", "webm",
        "mpg", "mpeg", "rmvb", "rm", "ra", "ram", "3gp", "3g2", "asf", "wmv", "wma", "flv", "swf",
        "db", "sqlite", "sqlite3", "mdb", "accdb", "dll", "so", "dylib", "o", "a", "lib", "sys",
        "vmdk", "vdi", "vhd", "vhdx", "iso", "img",
        "pdf",
        "pdb",
    ];
    assert(r@ =~= binary_extensions());
    r
}

fn text_extension_table() -> (r: Vec<&'static str>)
    ensures
        r@ == text_extensions(),
{
    let r = vec![
        "txt", "md", "rst", "tex", "bib", "sty", "cls", "log", "csv", "tsv", "toml",
        "html", "css", "js", "json", "yaml", "yml", "xml",
        "py", "java", "c", "cpp", "h", "hpp", "cc", "cxx", "swift", "go", "rb", "php", "perl", "pl",
        "rs", "rlib", "lua", "tcl", "awk", "sed", "m", "m4", "sh", "bash", "zsh", "fish",
        "kt", "kts", "groovy", "scala", "sbt", "scm", "lisp", "el", "emacs",
        "bat", "cmd", "ps1", "psm1", "vbs", "vbscript",
        "ini", "conf", "cfg", "properties", "sql", "env", "dotenv",
        "pom", "gradle", "build.gradle", "build.xml", "Makefile", "CMakeLists.txt",
        "gitignore", "gitattributes",
        "iml", "project", "settings.json", "vscode", "idea",
        "f90", "f", "f03", "f08", "f77", "f95", "for", "fpp", "creole", "feature", "cu", "cuh",
        "pyx", "pxd", "pxi", "erl", "es", "escript", "hrl", "xrl", "yrl", "fs", "fsi", "fsx",
        "fx", "flux", "g", "gap", "gd", "gi", "tst", "glsl", "fp", "frag", "frg", "fsh", "rno",
        "roff", "gvy", "gsp", "hcl", "tf", "hlsl", "fxh", "hlsli", "rdoc", "rbbas", "rbfrm",
        "rbmnu", "rbres", "rbtbar", "rbuistate", "rhtml", "raml", "qml", "qbs", "pro", "pri",
        "r", "rd", "rsx", "gcode", "gco", "gams", "gms", "mtml", "muf", "maxscript", "ms", "mcr",
    ];
    assert(r@ =~= text_extensions());
    r
}

fn is_listed(table: &Vec<&'static str>, e: &str) -> (r: bool)
    ensures
        r == listed(table@, e@),
{
    let mut i: usize = 0;
    while i < table.len()
        invariant
            i <= table@.len(),
            forall|j: int| 0 <= j < i ==> (#[trigger] table@[j])@ != e@,
        decreases table@.len() - i,
    {
        if same_text(table[i], e) {
            return true;
        }
        i += 1;
    }
    false
}

/// Looks a lower-cased extension up in the two tables: `Some(true)` when it
/// marks binary files, `Some(false)` when it marks text files, `None` when
/// the extension is unknown.
pub fn class_of_extension(lowered: &str) -> (r: Option<bool>)
    ensures
        r == extension_verdict(lowered@),
{
    if is_listed(&binary_extension_table(), lowered) {
        Some(true)
    } else if is_listed(&text_extension_table(), lowered) {
        Some(false)
    } else {
        None
    }
}

/// Position of the last `'.'` in `s`, or -1 when there is none.
pub open spec fn last_dot(s: Seq<char>) -> int
    decreases s.len(),
{
    if s.len() == 0 {
        -1
    } else if s.last() == '.' {
        s.len() - 1
    } else {
        last_dot(s.drop_last())
    }
}

/// The extension of a path: what follows its last `'.'`, if it has one.
pub open spec fn path_extension(path: Seq<char>) -> Option<Seq<char>> {
    if last_dot(path) < 0 {
        None
    } else {
        Some(path.subrange(last_dot(path) + 1, path.len() as int))
    }
}

/// What the extension of `path` alone says of it (see [`extension_verdict`]).
pub open spec fn verdict_by_extension(path: Seq<char>) -> Option<bool> {
    match path_extension(path) {
        Some(e) => extension_verdict(lowercase_of(e)),
        None => None,
    }
}

/// The lower-case form of a string, character by character, as Unicode
/// defines it.
pub uninterp spec fn lowercase_of(s: Seq<char>) -> Seq<char>;

/// Relies on `str::to_lowercase`: the result depends on the characters alone.
#[verifier::external_body]
fn lowercase(s: &str) -> (r: String)
    ensures
        r@ == lowercase_of(s@),
{
    s.to_lowercase()
}

proof fn lemma_last_dot_skips(s: Seq<char>, i: int, n: int)
    requires
        0 <= i <= n <= s.len(),
        forall|j: int| i <= j < n ==> s[j] != '.',
    ensures
        last_dot(s.subrange(0, n)) == last_dot(s.subrange(0, i)),
    decreases n - i,
{
    if n > i {
        assert(s.subrange(0, n).drop_last() =~= s.subrange(0, n - 1));
        lemma_last_dot_skips(s, i, n - 1);
    }
}

/// The extension of `path`: the text after its last `'.'`, if it has one.
pub fn extension_of(path: &str) -> (r: Option<&str>)
    ensures
        r matches Some(e) ==> path_extension(path@) == Some(e@),
        r is None ==> path_extension(path@) is None,
{
    let n = path.unicode_len();
    let mut i: usize = n;
    while i > 0
        invariant
            n == path@.len(),
            i <= n,
            forall|j: int| i <= j < n ==> path@[j] != '.',
        decreases i,
    {
        if path.get_char(i - 1) == '.' {
            proof {
                lemma_last_dot_skips(path@, i as int, n as int);
                assert(path@.subrange(0, n as int) =~= path@);
                assert(path@.subrange(0, i as int).last() == '.');
            }
            return Some(path.substring_char(i, n));
        }
        i -= 1;
    }
    proof {
        lemma_last_dot_skips(path@, 0, n as int);
        assert(path@.subrange(0, n as int) =~= path@);
    }
    None
}

/// What the extension of `path` alone says of it: `Some(true)` for a binary
/// extension, `Some(false)` for a text one, `None` when it has no extension or
/// an unknown one. This never touches the file.
pub fn binary_by_extension(path: &str) -> (r: Option<bool>)
    ensures
        r == verdict_by_extension(path@),
{
    match extension_of(path) {
        Some(e) => {
            let lowered = lowercase(e);
            class_of_extension(lowered.as_str())
        },
        None => None,
    }
}

/// Leading bytes of known binary formats (images, archives, executables,
/// media, documents, installers).
pub open spec fn magic_signatures() -> Seq<Seq<u8>> {
    seq![
        seq![0x89u8, 0x50, 0x4E, 0x47],  // PNG
        seq![0x47u8, 0x49, 0x46, 0x38],  // GIF
        seq![0xFFu8, 0xD8, 0xFF],  // JPEG
        seq![0x42u8, 0x4D],  // BMP
        seq![0x49u8, 0x49, 0x2A, 0x00],  // TIFF (Intel)
        seq![0x4Du8, 0x4D, 0x00, 0x2A],  // TIFF (Motorola)
        seq![0x57u8, 0x45, 0x42, 0x50],  // WebP
        seq![0x50u8, 0x4B, 0x03, 0x04],  // ZIP
        seq![0x1Fu8, 0x8B, 0x08],  // GZIP
        seq![0x42u8, 0x5A, 0x68],  // BZip2
        seq![0xFDu8, 0x37, 0x7A, 0x58],  // XZ
        seq![0x52u8, 0x61, 0x72, 0x21],  // RAR
        seq![0x37u8, 0x7A, 0xBC, 0xAF],  // 7-Zip
        seq![0x7Fu8, 0x45, 0x4C, 0x46],  // ELF
        seq![0x4Du8, 0x5A],  // DOS/Windows
        seq![0xCAu8, 0xFE, 0xBA, 0xBE],  // Java class
        seq![0x00u8, 0x61, 0x73, 0x6D],  // WebAssembly
        seq![0x52u8, 0x49, 0x46, 0x46],  // WAV/AVI
        seq![0x66u8, 0x74, 0x79, 0x70],  // ISO base media (ftyp)
        seq![0x49u8, 0x44, 0x33],  // ID3v2-tagged audio
        seq![0x4Fu8, 0x67, 0x67, 0x53],  // OGG
        seq![0x1Au8, 0x45, 0xDF, 0xA3],  // WebM
        seq![0x00u8, 0x00, 0x01, 0xB3],  // MPEG-2
        seq![0x00u8, 0x00, 0x01, 0xB6],  // MPEG-4
        seq![0x66u8, 0x4C, 0x61, 0x43],  // FLAC
        seq![0x4Du8, 0x54, 0x68, 0x64],  // MIDI
        seq![0x25u8, 0x50, 0x44, 0x46],  // PDF
        seq![0xD0u8, 0xCF, 0x11, 0xE0],  // Microsoft OLE
        seq![0x53u8, 0x51, 0x4C, 0x69, 0x74, 0x65],  // SQLite
        seq![0x30u8, 0x26, 0xB2, 0x75],  // MSI
        seq![0x00u8, 0x00, 0x00, 0x18, 0x66, 0x74, 0x79, 0x70],  // HEIF/HEIC
    ]
}

/// Whether `head` starts with one of the known binary signatures.
pub open spec fn has_binary_signature(head: Seq<u8>) -> bool {
    exists|i: int|
        0 <= i < magic_signatures().len() && (#[trigger] magic_signatures()[i]).len() <= head.len()
            && head.subrange(0, magic_signatures()[i].len() as int) == magic_signatures()[i]
}

fn magic_table() -> (r: Vec<Vec<u8>>)
    ensures
        r@.len() == magic_signatures().len(),
        forall|i: int| 0 <= i < r@.len() ==> (#[trigger] r@[i])@ == magic_signatures()[i],
{
    let r = vec![
        vec![0x89u8, 0x50, 0x4E, 0x47],  // PNG
        vec![0x47u8, 0x49, 0x46, 0x38],  // GIF
        vec![0xFFu8, 0xD8, 0xFF],  // JPEG
        vec![0x42u8, 0x4D],  // BMP
        vec![0x49u8, 0x49, 0x2A, 0x00],  // TIFF (Intel)
        vec![0x4Du8, 0x4D, 0x00, 0x2A],  // TIFF (Motorola)
        vec![0x57u8, 0x45, 0x42, 0x50],  // WebP
        vec![0x50u8, 0x4B, 0x03, 0x04],  // ZIP
        vec![0x1Fu8, 0x8B, 0x08],  // GZIP
        vec![0x42u8, 0x5A, 0x68],  // BZip2
        vec![0xFDu8, 0x37, 0x7A, 0x58],  // XZ
        vec![0x52u8, 0x61, 0x72, 0x21],  // RAR
        vec![0x37u8, 0x7A, 0xBC, 0xAF],  // 7-Zip
        vec![0x7Fu8, 0x45, 0x4C, 0x46],  // ELF
        vec![0x4Du8, 0x5A],  // DOS/Windows
        vec![0xCAu8, 0xFE, 0xBA, 0xBE],  // Java class
        vec![0x00u8, 0x61, 0x73, 0x6D],  // WebAssembly
        vec![0x52u8, 0x49, 0x46, 0x46],  // WAV/AVI
        vec![0x66u8, 0x74, 0x79, 0x70],  // ISO base media (ftyp)
        vec![0x49u8, 0x44, 0x33],  // ID3v2-tagged audio
        vec![0x4Fu8, 0x67, 0x67, 0x53],  // OGG
        vec![0x1Au8, 0x45, 0xDF, 0xA3],  // WebM
        vec![0x00u8, 0x00, 0x01, 0xB3],  // MPEG-2
        vec![0x00u8, 0x00, 0x01, 0xB6],  // MPEG-4
        vec![0x66u8, 0x4C, 0x61, 0x43],  // FLAC
        vec![0x4Du8, 0x54, 0x68, 0x64],  // MIDI
        vec![0x25u8, 0x50, 0x44, 0x46],  // PDF
        vec![0xD0u8, 0xCF, 0x11, 0xE0],  // Microsoft OLE
        vec![0x53u8, 0x51, 0x4C, 0x69, 0x74, 0x65],  // SQLite
        vec![0x30u8, 0x26, 0xB2, 0x75],  // MSI
        vec![0x00u8, 0x00, 0x00, 0x18, 0x66, 0x74, 0x79, 0x70],  // HEIF/HEIC
    ];
    assert(forall|i: int| 0 <= i < r@.len() ==> (#[trigger] r@[i])@ =~= magic_signatures()[i]);
    r
}

fn starts_with(head: &[u8], sig: &Vec<u8>) -> (r: bool)
    ensures
        r == (sig@.len() <= head@.len() && head@.subrange(0, sig@.len() as int) == sig@),
{
    if sig.len() > head.len() {
        return false;
    }
    let mut i: usize = 0;
    while i < sig.len()
        invariant
            sig@.len() <= head@.len(),
            i <= sig@.len(),
            forall|j: int| 0 <= j < i ==> head@[j] == sig@[j],
        decreases sig@.len() - i,
    {
        if head[i] != sig[i] {
            assert(head@.subrange(0, sig@.len() as int)[i as int] != sig@[i as int]);
            return false;
        }
        i += 1;
    }
    assert(head@.subrange(0, sig@.len() as int) =~= sig@);
    true
}

/// Whether `head`, the first bytes of a file, starts with the signature of a
/// known binary format.
pub fn matches_binary_signature(head: &[u8]) -> (r: bool)
    ensures
        r == has_binary_signature(head@),
{
    let table = magic_table();
    let mut i: usize = 0;
    while i < table.len()
        invariant
            table@.len() == magic_signatures().len(),
            forall|k: int| 0 <= k < table@.len() ==> (#[trigger] table@[k])@ == magic_signatures()[k],
            i <= table@.len(),
            forall|j: int|
                0 <= j < i ==> !((#[trigger] magic_signatures()[j]).len() <= head@.len()
                    && head@.subrange(0, magic_signatures()[j].len() as int)
                    == magic_signatures()[j]),
        decreases table@.len() - i,
    {
        assert(table@[i as int]@ == magic_signatures()[i as int]);
        if starts_with(head, &table[i]) {
            return true;
        }
        i += 1;
    }
    false
}

/// How many bytes of the content sample to inspect.
pub const SAMPLE_SIZE: usize = 10240;

/// How many leading bytes to compare against the signatures.
pub const HEAD_SIZE: usize = 8;

/// A byte that does not occur in plain ASCII text: NUL, a control byte, or
/// anything above `~`.
pub open spec fn is_non_text_byte(b: u8) -> bool {
    b == 0 || b < 0x20 || b > 0x7E
}

/// How many bytes of `s` are non-text bytes.
pub open spec fn non_text_count(s: Seq<u8>) -> nat
    decreases s.len(),
{
    if s.len() == 0 {
        0
    } else {
        non_text_count(s.drop_last()) + if is_non_text_byte(s.last()) {
            1nat
        } else {
            0nat
        }
    }
}

/// A byte of plain ASCII text: a printable character, a tab, a line feed or
/// a carriage return.
pub open spec fn is_text_byte(b: u8) -> bool {
    b == 0x09 || b == 0x0A || b == 0x0D || (0x20 <= b && b <= 0x7E)
}

/// The bytes are plain ASCII text: they decode as UTF-8 into printable ASCII
/// characters and line layout only, with no NUL or other control byte.
pub open spec fn is_ascii_text(s: Seq<u8>) -> bool {
    forall|i: int| 0 <= i < s.len() ==> is_text_byte(#[trigger] s[i])
}

/// Twenty percent of `n`, rounded up.
pub open spec fn tolerance(n: nat) -> nat {
    ((n + 4) / 5) as nat
}

/// Whether a content sample looks binary: it is not plain ASCII text, and more
/// than a fifth of its bytes (rounded up) are non-text bytes. A sample with NUL
/// or other control bytes is thus decided by that count.
pub open spec fn sample_is_binary(s: Seq<u8>) -> bool {
    !is_ascii_text(s) && non_text_count(s) > tolerance(s.len())
}

/// Decides on a content sample, the first bytes of a file (at most
/// [`SAMPLE_SIZE`] of them in practice).
pub fn sample_looks_binary(sample: &[u8]) -> (r: bool)
    ensures
        r == sample_is_binary(sample@),
{
    let n = sample.len();
    let mut all_text = true;
    let mut count: usize = 0;
    let mut i: usize = 0;
    while i < n
        invariant
            n == sample@.len(),
            i <= n,
            count == non_text_count(sample@.subrange(0, i as int)),
            count <= i,
            all_text == is_ascii_text(sample@.subrange(0, i as int)),
        decreases n - i,
    {
        let b = sample[i];
        proof {
            let next = sample@.subrange(0, i + 1);
            assert(next.drop_last() =~= sample@.subrange(0, i as int));
            assert(next.last() == b);
            if !all_text {
                let prev = sample@.subrange(0, i as int);
                let k = choose|k: int| 0 <= k < prev.len() && !is_text_byte(prev[k]);
                assert(next[k] == prev[k]);
            }
        }
        if !(b == 0x09 || b == 0x0A || b == 0x0D || (0x20 <= b && b <= 0x7E)) {
            all_text = false;
        }
        if b == 0 || b < 0x20 || b > 0x7E {
            count += 1;
        }
        i += 1;
    }
    assert(sample@.subrange(0, n as int) =~= sample@);
    if all_text {
        return false;
    }
    count > (n / 5 + if n % 5 == 0 { 0 } else { 1 })
}

/// What reading the start of a file gave, for a file whose extension did not
/// decide: the file could not be opened; its first bytes could not be read;
/// or `head` holds its first bytes (at most [`HEAD_SIZE`]), `rewound` says
/// whether going back to its start succeeded, and `sample` holds its first
/// bytes again (at most [`SAMPLE_SIZE`]), `None` if that read failed.
pub enum Probe {
    Unopenable,
    HeadUnreadable,
    Read { head: Vec<u8>, rewound: bool, sample: Option<Vec<u8>> },
}

/// The verdict on a file that was read: unreadable files count as text, a
/// known signature as binary, a failed rewind as binary, a failed sample read
/// as text, and otherwise the sample decides.
pub open spec fn probe_is_binary(p: Probe) -> bool {
    match p {
        Probe::Unopenable => false,
        Probe::HeadUnreadable => false,
        Probe::Read { head, rewound, sample } => {
            if has_binary_signature(head@) {
                true
            } else if !rewound {
                true
            } else {
                match sample {
                    None => false,
                    Some(s) => sample_is_binary(s@),
                }
            }
        },
    }
}

/// Decides on what reading the start of a file gave (see [`Probe`]).
pub fn probed_is_binary(probe: &Probe) -> (r: bool)
    ensures
        r == probe_is_binary(*probe),
{
    match probe {
        Probe::Unopenable => false,
        Probe::HeadUnreadable => false,
        Probe::Read { head, rewound, sample } => {
            if matches_binary_signature(head.as_slice()) {
                true
            } else if !*rewound {
                true
            } else {
                match sample {
                    None => false,
                    Some(s) => sample_looks_binary(s.as_slice()),
                }
            }
        },
    }
}

/// The full verdict on a file: its extension when that decides, else what
/// reading it gave.
pub open spec fn file_verdict(path: Seq<char>, probe: Probe) -> bool {
    match verdict_by_extension(path) {
        Some(b) => b,
        None => probe_is_binary(probe),
    }
}

/// Whether the file at `path` is binary. The extension decides when it is
/// known, and `probe` is then not looked at; otherwise `probe`, what reading
/// the start of the file gave, decides.
pub fn file_is_binary(path: &str, probe: &Probe) -> (r: bool)
    ensures
        r == file_verdict(path@, *probe),
        verdict_by_extension(path@) matches Some(b) ==> r == b,
{
    match binary_by_extension(path) {
        Some(b) => b,
        None => probed_is_binary(probe),
    }
}

/// A file whose lower-cased extension is on the binary list is binary,
/// whatever reading it would give: the probe is never consulted.
pub proof fn law_binary_extension_decides(path: Seq<char>, p: Probe, q: Probe)
    requires
        path_extension(path) is Some,
        listed(binary_extensions(), lowercase_of(path_extension(path)->Some_0)),
    ensures
        file_verdict(path, p),
        file_verdict(path, p) == file_verdict(path, q),
{
}

/// A file whose lower-cased extension marks text is text, whatever its bytes
/// are: the probe is never consulted.
pub proof fn law_text_extension_decides(path: Seq<char>, p: Probe)
    requires
        path_extension(path) is Some,
        listed(text_extensions(), lowercase_of(path_extension(path)->Some_0)),
        !listed(binary_extensions(), lowercase_of(path_extension(path)->Some_0)),
    ensures
        !file_verdict(path, p),
{
}

} // verus!
