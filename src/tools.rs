//! The text that the file and tool commands compute before they act: which
//! names a listing keeps, safe names for uploaded files, the arguments of the
//! document converters, and what is sent for a transcription.
use vstd::prelude::*;
use crate::path::file_name;
use crate::path::file_name_of;
use crate::stamp::{digit, digit_text};

verus! {

/// Whether `p` occurs in `s` as a run of consecutive characters.
pub open spec fn occurs_in(p: Seq<char>, s: Seq<char>) -> bool {
    exists|i: int| 0 <= i && i + p.len() <= s.len() && #[trigger] s.subrange(i, i + p.len()) == p
}

/// Whether `s` ends with `suffix`.
pub open spec fn ends_with(s: Seq<char>, suffix: Seq<char>) -> bool {
    suffix.len() <= s.len() && s.subrange(s.len() - suffix.len(), s.len() as int) == suffix
}

/// Whether a listing with the filter `pattern` keeps the file `name`: every
/// name without a filter, else those in which the filter occurs.
pub open spec fn kept(name: Seq<char>, pattern: Option<Seq<char>>) -> bool {
    match pattern {
        None => true,
        Some(p) => occurs_in(p, name),
    }
}

/// Whether `c` may not stand in a file name on some system.
pub open spec fn is_unsafe_char(c: char) -> bool {
    c == '/' || c == '\\' || c == ':' || c == '*' || c == '?' || c == '"' || c == '<' || c == '>'
        || c == '|'
}

/// `name` with each character that may not stand in a file name replaced
/// by `_`.
pub open spec fn safe_name(name: Seq<char>) -> Seq<char> {
    Seq::new(name.len(), |i: int| if is_unsafe_char(name[i]) { '_' } else { name[i] })
}

/// `n` in decimal, without leading zeros.
pub open spec fn decimal(n: nat) -> Seq<char>
    decreases n,
{
    if n < 10 {
        seq![digit(n as int)]
    } else {
        decimal(n / 10).push(digit((n % 10) as int))
    }
}

/// The name under which an uploaded audio file is kept: the seconds since
/// the Unix epoch, `_`, and the safe form of its name.
pub open spec fn upload_name(secs: nat, name: Seq<char>) -> Seq<char> {
    decimal(secs) + seq!['_'] + safe_name(name)
}

/// `s` with each backslash doubled, as a PowerShell string wants it.
pub open spec fn escaped(s: Seq<char>) -> Seq<char>
    decreases s.len(),
{
    if s.len() == 0 {
        Seq::empty()
    } else {
        escaped(s.drop_last()) + if s.last() == '\\' {
            seq!['\\', '\\']
        } else {
            seq![s.last()]
        }
    }
}

/// The arguments of a pandoc run from `input` to `output`, with `template`
/// as the reference document where there is one.
pub open spec fn pandoc_arguments(
    input: Seq<char>,
    output: Seq<char>,
    template: Option<Seq<char>>,
) -> Seq<Seq<char>> {
    seq![input, "-o"@, output] + match template {
        Some(t) => seq!["--reference-doc"@, t],
        None => Seq::empty(),
    }
}

/// The largest audio file, in bytes, that is sent for transcription.
pub const MAX_AUDIO_BYTES: usize = 26_214_400;

/// Tells whether `p` occurs in `s`.
pub fn occurs(p: &str, s: &str) -> (r: bool)
    ensures
        r == occurs_in(p@, s@),
{
    let n = s.unicode_len();
    let m = p.unicode_len();
    if m > n {
        return false;
    }
    if m == 0 {
        assert(s@.subrange(0, 0 + p@.len() as int) =~= p@);
        return true;
    }
    let needle = String::from_str(p);
    let mut i: usize = 0;
    while i <= n - m
        invariant
            n == s@.len(),
            m == p@.len(),
            needle@ == p@,
            1 <= m <= n,
            i <= n - m + 1,
            forall|j: int| 0 <= j < i ==> #[trigger] s@.subrange(j, j + m) != p@,
        decreases n - m + 1 - i,
    {
        let piece = String::from_str(s.substring_char(i, i + m));
        if piece == needle {
            return true;
        }
        i = i + 1;
    }
    proof {
        assert forall|j: int| 0 <= j && j + p@.len() <= s@.len() implies #[trigger] s@.subrange(
            j,
            j + p@.len(),
        ) != p@ by {
            assert(j < i);
        }
    }
    false
}

/// Tells whether a listing with the filter `pattern` keeps the file `name`.
pub fn keeps(name: &str, pattern: &Option<String>) -> (r: bool)
    ensures
        r == kept(name@, pattern.deep_view()),
{
    match pattern {
        None => true,
        Some(p) => occurs(p.as_str(), name),
    }
}

/// Tells whether `s` ends with `suffix`.
pub fn has_suffix(s: &str, suffix: &str) -> (r: bool)
    ensures
        r == ends_with(s@, suffix@),
{
    let n = s.unicode_len();
    let m = suffix.unicode_len();
    if m > n {
        return false;
    }
    let tail = String::from_str(s.substring_char(n - m, n));
    let want = String::from_str(suffix);
    tail == want
}

/// `name` with each character that may not stand in a file name replaced
/// by `_`.
pub fn safe_file_name(name: &str) -> (r: String)
    ensures
        r@ == safe_name(name@),
{
    let n = name.unicode_len();
    let mut out = String::new();
    let mut i: usize = 0;
    while i < n
        invariant
            n == name@.len(),
            i <= n,
            out@ == safe_name(name@.subrange(0, i as int)),
        decreases n - i,
    {
        proof {
            reveal_strlit("_");
        }
        let c = name.get_char(i);
        let ghost before = out@;
        if c == '/' || c == '\\' || c == ':' || c == '*' || c == '?' || c == '"' || c == '<' || c
            == '>' || c == '|' {
            out.append("_");
        } else {
            out.append(name.substring_char(i, i + 1));
        }
        assert(out@ =~= before.push(if is_unsafe_char(c) { '_' } else { c }));
        assert(out@ =~= safe_name(name@.subrange(0, i + 1)));
        i = i + 1;
    }
    assert(name@.subrange(0, n as int) =~= name@);
    out
}

fn append_decimal(out: &mut String, n: u64)
    ensures
        final(out)@ == old(out)@ + decimal(n as nat),
    decreases n,
{
    if n >= 10 {
        append_decimal(out, n / 10);
    }
    out.append(digit_text((n % 10) as u32));
    assert(final(out)@ =~= old(out)@ + decimal(n as nat));
}

/// The name under which an audio file uploaded at `secs` seconds after the
/// Unix epoch is kept.
pub fn upload_file_name(secs: u64, name: &str) -> (r: String)
    ensures
        r@ == upload_name(secs as nat, name@),
{
    let mut out = String::new();
    append_decimal(&mut out, secs);
    proof {
        reveal_strlit("_");
    }
    out.append("_");
    let safe = safe_file_name(name);
    out.append(safe.as_str());
    assert(out@ =~= upload_name(secs as nat, name@));
    out
}

/// `s` with each backslash doubled.
pub fn escape_backslashes(s: &str) -> (r: String)
    ensures
        r@ == escaped(s@),
{
    let n = s.unicode_len();
    let mut out = String::new();
    let mut i: usize = 0;
    while i < n
        invariant
            n == s@.len(),
            i <= n,
            out@ == escaped(s@.subrange(0, i as int)),
        decreases n - i,
    {
        proof {
            reveal_strlit("\\\\");
        }
        let c = s.get_char(i);
        assert(s@.subrange(0, i + 1).drop_last() =~= s@.subrange(0, i as int));
        if c == '\\' {
            out.append("\\\\");
        } else {
            out.append(s.substring_char(i, i + 1));
        }
        i = i + 1;
    }
    assert(s@.subrange(0, n as int) =~= s@);
    out
}

/// The arguments of a pandoc run from `input` to `output` (`-` reads the
/// standard input), with `template` as the reference document.
pub fn pandoc_args(input: &str, output: &str, template: Option<String>) -> (r: Vec<String>)
    ensures
        r.deep_view() == pandoc_arguments(input@, output@, template.deep_view()),
{
    let mut args: Vec<String> = Vec::new();
    args.push(String::from_str(input));
    args.push(String::from_str("-o"));
    args.push(String::from_str(output));
    match template {
        Some(t) => {
            args.push(String::from_str("--reference-doc"));
            args.push(t);
        },
        None => {},
    }
    assert(args.deep_view() =~= pandoc_arguments(input@, output@, template.deep_view()));
    args
}

/// The media type under which the audio file `name` is sent: by its
/// extension, `audio/mpeg` where it is not known.
pub fn audio_mime_type(name: &str) -> (r: &'static str)
    ensures
        ends_with(name@, ".m4a"@) ==> r@ == "audio/mp4"@,
        !ends_with(name@, ".m4a"@) && ends_with(name@, ".mp3"@) ==> r@ == "audio/mpeg"@,
        !ends_with(name@, ".m4a"@) && !ends_with(name@, ".mp3"@) && ends_with(name@, ".wav"@)
            ==> r@ == "audio/wav"@,
        !ends_with(name@, ".m4a"@) && !ends_with(name@, ".mp3"@) && !ends_with(name@, ".wav"@)
            ==> r@ == "audio/mpeg"@,
{
    if has_suffix(name, ".m4a") {
        "audio/mp4"
    } else if has_suffix(name, ".mp3") {
        "audio/mpeg"
    } else if has_suffix(name, ".wav") {
        "audio/wav"
    } else {
        "audio/mpeg"
    }
}

/// The name under which the audio file at `path` is sent: its file name,
/// read with `sep` as the separator, or `audio.m4a` where it has none.
pub fn audio_upload_name(path: &str, sep: char) -> (r: String)
    ensures
        file_name(path@, sep) matches Some(n) ==> r@ == n,
        file_name(path@, sep) is None ==> r@ == "audio.m4a"@,
{
    match file_name_of(path, sep) {
        Some(n) => n,
        None => String::from_str("audio.m4a"),
    }
}

/// Tells whether an audio file of `size` bytes may be sent for
/// transcription.
pub fn audio_size_allowed(size: usize) -> (r: bool)
    ensures
        r == (size <= MAX_AUDIO_BYTES),
{
    size <= MAX_AUDIO_BYTES
}

/// The start of the PowerShell script that has Word save a document as PDF,
/// up to the path of the document.
pub const PDF_SCRIPT_HEAD: &'static str = r#"
$word = New-Object -ComObject Word.Application
$word.Visible = $false
try {
    $doc = $word.Documents.Open(""#;

/// The script between the path of the document and that of the PDF.
pub const PDF_SCRIPT_MIDDLE: &'static str = r#"")
    $doc.SaveAs(""#;

/// The rest of the script, after the path of the PDF.
pub const PDF_SCRIPT_TAIL: &'static str = r#"", 17)
    $doc.Close()
    Write-Output "Success"
} catch {
    Write-Error $_.Exception.Message
    exit 1
} finally {
    $word.Quit()
    [System.Runtime.Interopservices.Marshal]::ReleaseComObject($word) | Out-Null
}
"#;

/// The script that has Word save the document at `docx` as a PDF at `pdf`.
pub open spec fn pdf_script(docx: Seq<char>, pdf: Seq<char>) -> Seq<char> {
    PDF_SCRIPT_HEAD@ + escaped(docx) + PDF_SCRIPT_MIDDLE@ + escaped(pdf) + PDF_SCRIPT_TAIL@
}

/// The PowerShell script that has Word save the document at `docx` as a PDF
/// at `pdf`, the paths written with their backslashes doubled.
pub fn pdf_conversion_script(docx: &str, pdf: &str) -> (r: String)
    ensures
        r@ == pdf_script(docx@, pdf@),
{
    let mut out = String::from_str(PDF_SCRIPT_HEAD);
    let d = escape_backslashes(docx);
    out.append(d.as_str());
    out.append(PDF_SCRIPT_MIDDLE);
    let p = escape_backslashes(pdf);
    out.append(p.as_str());
    out.append(PDF_SCRIPT_TAIL);
    out
}

} // verus!
