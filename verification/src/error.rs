//! The errors of the service and the messages that they are reported with.

use vstd::prelude::*;

use crate::text::{decimal, quote};
#[allow(unused_imports)]
use crate::text::{decimal_text, digit_char, quoted_text, texts};

verus! {

pub const BYTES_PER_MB: usize = 1_048_576;

/// Why no browser executable can be used.
#[derive(Debug)]
pub enum ChromePathError {
    NotFound { path: String },
    NotExecutable { path: String },
    ValidationFailed { path: String, error: String },
    NoValidInstallation { paths: Vec<String> },
}

/// Why a document could not be generated.
#[derive(Debug)]
pub enum PdfError {
    BrowserConnectionLost,
    PageCreationFailed(String),
    GenerationFailed(String),
    Timeout,
    AllInstancesFailed,
    ChromePath(ChromePathError),
    SizeExceeded { size_bytes: usize, limit_mb: usize },
}

/// Texts in quotes, separated by commas.
pub open spec fn quoted_items(items: Seq<Seq<char>>) -> Seq<char>
    decreases items.len(),
{
    if items.len() == 0 {
        Seq::empty()
    } else if items.len() == 1 {
        quoted_text(items[0])
    } else {
        quoted_items(items.drop_last()) + ", "@ + quoted_text(items.last())
    }
}

impl ChromePathError {
    pub open spec fn message_text(self) -> Seq<char> {
        match self {
            ChromePathError::NotFound { path } => "Chrome binary not found at path: "@ + path@,
            ChromePathError::NotExecutable { path } => "Chrome binary is not executable: "@ + path@,
            ChromePathError::ValidationFailed { path, error } => "Chrome binary validation failed: "@
                + path@ + ", error: "@ + error@,
            ChromePathError::NoValidInstallation { paths } =>
                "No valid Chrome installation found. Tried paths: "@ + "["@ + quoted_items(
                texts(paths@),
            ) + "]"@,
        }
    }

    pub fn message(&self) -> (r: String)
        ensures
            r@ == self.message_text(),
    {
        match self {
            ChromePathError::NotFound { path } => {
                let mut r = "Chrome binary not found at path: ".to_owned();
                r.append(path.as_str());
                r
            },
            ChromePathError::NotExecutable { path } => {
                let mut r = "Chrome binary is not executable: ".to_owned();
                r.append(path.as_str());
                r
            },
            ChromePathError::ValidationFailed { path, error } => {
                let mut r = "Chrome binary validation failed: ".to_owned();
                r.append(path.as_str());
                r.append(", error: ");
                r.append(error.as_str());
                r
            },
            ChromePathError::NoValidInstallation { paths } => {
                let mut r = "No valid Chrome installation found. Tried paths: ".to_owned();
                r.append("[");
                r.append(quote_items(paths).as_str());
                r.append("]");
                r
            },
        }
    }
}

fn quote_items(items: &Vec<String>) -> (r: String)
    ensures
        r@ == quoted_items(texts(items@)),
{
    let mut r = String::new();
    let mut i: usize = 0;
    while i < items.len()
        invariant
            i <= items@.len(),
            r@ == quoted_items(texts(items@).take(i as int)),
        decreases items@.len() - i,
    {
        proof {
            assert(texts(items@).take(i + 1).drop_last() == texts(items@).take(i as int));
            assert(texts(items@).take(i + 1).last() == items@[i as int]@);
        }
        if i > 0 {
            r.append(", ");
        }
        let ghost before = r@;
        r.append(quote(items[i].as_str()).as_str());
        proof {
            assert(i == 0 ==> before + quoted_text(items@[0]@) == quoted_text(items@[0]@));
        }
        i += 1;
    }
    proof {
        assert(texts(items@).take(items@.len() as int) == texts(items@));
    }
    r
}

/// `bytes` in hundredths of a megabyte, rounded to the nearest, and to the even one of two that
/// are equally near.
pub open spec fn size_hundredths(bytes: nat) -> nat {
    let scaled = bytes * 100;
    let below = scaled / BYTES_PER_MB as nat;
    let rest = 2 * (scaled % BYTES_PER_MB as nat);
    if rest > BYTES_PER_MB || (rest == BYTES_PER_MB && below % 2 == 1) {
        below + 1
    } else {
        below
    }
}

/// `bytes` in megabytes with two decimals.
pub open spec fn size_text(bytes: nat) -> Seq<char> {
    let h = size_hundredths(bytes);
    decimal_text(h / 100) + "."@ + seq![digit_char(h / 10 % 10), digit_char(h % 10)]
}

/// The message for a document of `bytes` that is above a limit of so many megabytes.
pub open spec fn size_exceeded_text(bytes: nat, limit_mb: nat) -> Seq<char> {
    "PDF size "@ + size_text(bytes) + "MB exceeds limit of "@ + decimal_text(limit_mb) + "MB"@
}

pub fn size_exceeded_message(bytes: usize, limit_mb: usize) -> (r: String)
    ensures
        r@ == size_exceeded_text(bytes as nat, limit_mb as nat),
{
    let scaled: u128 = bytes as u128 * 100;
    let below: u128 = scaled / BYTES_PER_MB as u128;
    let rest: u128 = 2 * (scaled % BYTES_PER_MB as u128);
    let h: u128 = if rest > BYTES_PER_MB as u128 || (rest == BYTES_PER_MB as u128 && below % 2
        == 1) {
        below + 1
    } else {
        below
    };
    let mut size = decimal(h / 100);
    size.append(".");
    let ghost whole = size@;
    size.push((48 + (h / 10 % 10) as u8) as char);
    size.push((48 + (h % 10) as u8) as char);
    proof {
        let hn = h as nat;
        assert(size@ == whole + seq![digit_char(hn / 10 % 10), digit_char(hn % 10)]);
    }
    let mut r = "PDF size ".to_owned();
    r.append(size.as_str());
    r.append("MB exceeds limit of ");
    r.append(decimal(limit_mb as u128).as_str());
    r.append("MB");
    r
}

impl PdfError {
    pub open spec fn message_text(self) -> Seq<char> {
        match self {
            PdfError::BrowserConnectionLost => "Browser connection lost"@,
            PdfError::PageCreationFailed(e) => "Failed to create browser page: "@ + e@,
            PdfError::GenerationFailed(e) => "PDF generation failed: "@ + e@,
            PdfError::Timeout => "Timeout while generating PDF"@,
            PdfError::AllInstancesFailed => "All browser instances failed"@,
            PdfError::ChromePath(e) => "Chrome path error: "@ + e.message_text(),
            PdfError::SizeExceeded { size_bytes, limit_mb } => size_exceeded_text(
                size_bytes as nat,
                limit_mb as nat,
            ),
        }
    }

    pub fn message(&self) -> (r: String)
        ensures
            r@ == self.message_text(),
    {
        match self {
            PdfError::BrowserConnectionLost => "Browser connection lost".to_owned(),
            PdfError::PageCreationFailed(e) => {
                let mut r = "Failed to create browser page: ".to_owned();
                r.append(e.as_str());
                r
            },
            PdfError::GenerationFailed(e) => {
                let mut r = "PDF generation failed: ".to_owned();
                r.append(e.as_str());
                r
            },
            PdfError::Timeout => "Timeout while generating PDF".to_owned(),
            PdfError::AllInstancesFailed => "All browser instances failed".to_owned(),
            PdfError::ChromePath(e) => {
                let mut r = "Chrome path error: ".to_owned();
                r.append(e.message().as_str());
                r
            },
            PdfError::SizeExceeded { size_bytes, limit_mb } => size_exceeded_message(
                *size_bytes,
                *limit_mb,
            ),
        }
    }
}

impl From<ChromePathError> for PdfError {
    fn from(e: ChromePathError) -> (r: PdfError) {
        PdfError::ChromePath(e)
    }
}

impl vstd::std_specs::convert::FromSpecImpl<ChromePathError> for PdfError {
    open spec fn obeys_from_spec() -> bool {
        true
    }

    open spec fn from_spec(e: ChromePathError) -> PdfError {
        PdfError::ChromePath(e)
    }
}

// ---------------------------------------------------------------------------
// Laws
// ---------------------------------------------------------------------------

/// A size is told to the nearest hundredth of a megabyte of 1048576 bytes: it is off by half of one
/// at most, and by just that half only where the hundredth is even. So a larger document is never
/// told to be smaller.
pub proof fn law_size_rounding(bytes: nat, more: nat)
    requires
        bytes <= more,
    ensures
        ({
            let h = size_hundredths(bytes);
            let off = 200 * bytes - 2_097_152 * h;
            &&& -1_048_576 <= off <= 1_048_576
            &&& off == 1_048_576 || off == -1_048_576 ==> h % 2 == 0
        }),
        size_hundredths(bytes) <= size_hundredths(more),
        BYTES_PER_MB == 1_048_576,
{
    let scaled: nat = bytes * 100;
    let below: nat = scaled / 1_048_576;
    let rest: nat = scaled % 1_048_576;
    assert(scaled == 1_048_576 * below + rest);
    let h = size_hundredths(bytes);
    assert(h == below || h == below + 1);
    assert(h == below ==> 200 * bytes - 2_097_152 * h == 2 * rest);
    assert(h == below + 1 ==> 200 * bytes - 2_097_152 * h == 2 * rest - 2_097_152);
    assert(h == below + 1 <==> 2 * rest > 1_048_576 || (2 * rest == 1_048_576 && below % 2 == 1));
}

/// A size is written with its whole megabytes, a point and two digits, which are its hundredths.
pub proof fn law_size_text(bytes: nat)
    ensures
        ({
            let (t, h) = (size_text(bytes), size_hundredths(bytes));
            let n = t.len();
            &&& n >= 4 && t[n - 3] == '.'
            &&& t.take(n - 3) == decimal_text(h / 100)
            &&& '0' <= t[n - 2] <= '9' && '0' <= t[n - 1] <= '9'
            &&& (h / 100) * 100 + (t[n - 2] as int - 48) * 10 + (t[n - 1] as int - 48) == h
        }),
{
    let (t, h) = (size_text(bytes), size_hundredths(bytes));
    reveal_strlit(".");
    crate::text::lemma_decimal_digits(h / 100);
    assert(t.take(t.len() - 3) =~= decimal_text(h / 100));
}

/// A list of texts in quotes is that of its parts with a comma and a space between them.
pub proof fn law_quoted_items(a: Seq<Seq<char>>, b: Seq<Seq<char>>, item: Seq<char>)
    ensures
        quoted_items(Seq::empty()) == Seq::<char>::empty(),
        quoted_items(seq![item]) == quoted_text(item),
        a.len() > 0 && b.len() > 0 ==> quoted_items(a + b) == quoted_items(a) + ", "@
            + quoted_items(b),
    decreases b.len(),
{
    if a.len() > 0 && b.len() == 1 {
        assert((a + b).drop_last() =~= a);
        assert(quoted_items(a + b) =~= quoted_items(a) + ", "@ + quoted_items(b));
    } else if a.len() > 0 && b.len() > 1 {
        law_quoted_items(a, b.drop_last(), item);
        assert((a + b).drop_last() =~= a + b.drop_last());
        assert(quoted_items(a + b) =~= quoted_items(a) + ", "@ + quoted_items(b));
    }
}

/// Every message that reports something else in it begins with fixed words and goes on with what
/// it reports, in full, whatever that is.
pub proof fn law_path_messages(path: String, error: String, paths: Vec<String>)
    ensures
        (ChromePathError::NotFound { path }).message_text() == "Chrome binary not found at path: "@
            + path@,
        (ChromePathError::NotExecutable { path }).message_text()
            == "Chrome binary is not executable: "@ + path@,
        (ChromePathError::ValidationFailed { path, error }).message_text()
            == "Chrome binary validation failed: "@ + (path@ + (", error: "@ + error@)),
        (ChromePathError::NoValidInstallation { paths }).message_text()
            == "No valid Chrome installation found. Tried paths: ["@ + (quoted_items(texts(paths@))
            + "]"@),
{
    assert((ChromePathError::ValidationFailed { path, error }).message_text()
        =~= "Chrome binary validation failed: "@ + (path@ + (", error: "@ + error@)));
    reveal_strlit("No valid Chrome installation found. Tried paths: [");
    reveal_strlit("No valid Chrome installation found. Tried paths: ");
    reveal_strlit("[");
    assert("No valid Chrome installation found. Tried paths: ["@
        =~= "No valid Chrome installation found. Tried paths: "@ + "["@);
    assert((ChromePathError::NoValidInstallation { paths }).message_text()
        =~= "No valid Chrome installation found. Tried paths: ["@ + (quoted_items(texts(paths@))
        + "]"@));
}

/// The same of the errors of a generation; the others say always the same.
pub proof fn law_pdf_messages(e: String, path_error: ChromePathError, bytes: usize, limit_mb: usize)
    ensures
        PdfError::PageCreationFailed(e).message_text() == "Failed to create browser page: "@ + e@,
        PdfError::GenerationFailed(e).message_text() == "PDF generation failed: "@ + e@,
        PdfError::ChromePath(path_error).message_text() == "Chrome path error: "@
            + path_error.message_text(),
        PdfError::BrowserConnectionLost.message_text() == "Browser connection lost"@,
        PdfError::Timeout.message_text() == "Timeout while generating PDF"@,
        PdfError::AllInstancesFailed.message_text() == "All browser instances failed"@,
        (PdfError::SizeExceeded { size_bytes: bytes, limit_mb }).message_text() == "PDF size "@ + (
        size_text(bytes as nat) + ("MB exceeds limit of "@ + (decimal_text(limit_mb as nat)
            + "MB"@))),
        size_exceeded_text(bytes as nat, limit_mb as nat) == (PdfError::SizeExceeded {
            size_bytes: bytes,
            limit_mb,
        }).message_text(),
{
    assert(size_exceeded_text(bytes as nat, limit_mb as nat) =~= "PDF size "@ + (size_text(
        bytes as nat,
    ) + ("MB exceeds limit of "@ + (decimal_text(limit_mb as nat) + "MB"@))));
}

} // verus!
