//! The leaf computations behind each endpoint.

use crate::text::{bracketed, chars_of, enclose, push_signed_decimal, signed_decimal};
use chrono::{DateTime, SecondsFormat, Utc};
use rand::rngs::ThreadRng;
use rand::Rng;
use sha2::{Digest, Sha256};
use std::time::SystemTime;
use vstd::prelude::*;
use vstd::string::StringExecFns;
use vstd::utf8::encode_utf8;

verus! {

/// The Fibonacci sequence, counted from zero: 0, 1, 1, 2, 3, 5, 8, ...
pub open spec fn fib(n: nat) -> nat
    decreases n,
{
    if n == 0 {
        0
    } else if n == 1 {
        1
    } else {
        fib((n - 1) as nat) + fib((n - 2) as nat)
    }
}

/// The largest index whose Fibonacci number fits in 64 bits.
pub const FIB_MAX_INDEX: u64 = 93;

/// The sequence never decreases.
pub proof fn lemma_fib_monotonic(i: nat, j: nat)
    requires
        i <= j,
    ensures
        fib(i) <= fib(j),
    decreases j,
{
    if i < j {
        lemma_fib_monotonic(i, (j - 1) as nat);
    }
}

/// Ten steps of the recursion at once.
proof fn lemma_fib_stride(n: nat)
    ensures
        fib(n + 10) == 55 * fib(n + 1) + 34 * fib(n),
        fib(n + 11) == 89 * fib(n + 1) + 55 * fib(n),
{
    assert(fib(n + 2) == fib(n + 1) + fib(n));
    assert(fib(n + 3) == fib(n + 2) + fib(n + 1));
    assert(fib(n + 4) == fib(n + 3) + fib(n + 2));
    assert(fib(n + 5) == fib(n + 4) + fib(n + 3));
    assert(fib(n + 6) == fib(n + 5) + fib(n + 4));
    assert(fib(n + 7) == fib(n + 6) + fib(n + 5));
    assert(fib(n + 8) == fib(n + 7) + fib(n + 6));
    assert(fib(n + 9) == fib(n + 8) + fib(n + 7));
    assert(fib(n + 10) == fib(n + 9) + fib(n + 8));
    assert(fib(n + 11) == fib(n + 10) + fib(n + 9));
}

/// The value at the largest index that fits, and the first one that does not.
pub proof fn lemma_fib_limit()
    ensures
        fib(93) == 12200160415121876738,
        fib(94) == 19740274219868223167,
{
    assert(fib(0) == 0 && fib(1) == 1);
    lemma_fib_stride(0);
    lemma_fib_stride(10);
    lemma_fib_stride(20);
    lemma_fib_stride(30);
    lemma_fib_stride(40);
    lemma_fib_stride(50);
    lemma_fib_stride(60);
    lemma_fib_stride(70);
    lemma_fib_stride(80);
    assert(fib(90) == 2880067194370816120 && fib(91) == 4660046610375530309);
    assert(fib(92) == fib(91) + fib(90));
    assert(fib(93) == fib(92) + fib(91));
    assert(fib(94) == fib(93) + fib(92));
}

/// The `n`-th Fibonacci number, by the defining recursion.
pub fn fibonacci(n: u64) -> (r: u64)
    requires
        n <= FIB_MAX_INDEX,
    ensures
        r == fib(n as nat),
    decreases n,
{
    if n == 0 {
        0
    } else if n == 1 {
        1
    } else {
        proof {
            lemma_fib_limit();
            lemma_fib_monotonic(n as nat, 93);
        }
        fibonacci(n - 1) + fibonacci(n - 2)
    }
}

/// The `n`-th Fibonacci number, where it fits in 64 bits.
pub fn checked_fibonacci(n: u64) -> (r: Option<u64>)
    ensures
        match r {
            Some(value) => n <= FIB_MAX_INDEX && value == fib(n as nat),
            None => n > FIB_MAX_INDEX && fib(n as nat) > u64::MAX,
        },
{
    if n <= FIB_MAX_INDEX {
        Some(fibonacci(n))
    } else {
        proof {
            lemma_fib_limit();
            lemma_fib_monotonic(94, n as nat);
        }
        None
    }
}

/// The characters of `input` in the opposite order.
pub fn rerverse_text(input: &str) -> (r: String)
    ensures
        r@ == input@.reverse(),
{
    let v = chars_of(input);
    let mut r = String::new();
    let mut i: usize = v.len();
    while i > 0
        invariant
            i <= v.len(),
            r@.len() == v.len() - i,
            forall|j: int| 0 <= j < r@.len() ==> r@[j] == v@[v.len() - 1 - j],
        decreases i,
    {
        i -= 1;
        r.push(v[i]);
    }
    r
}

/// Reversing a text twice gives the text back.
pub proof fn lemma_reverse_twice(s: Seq<char>)
    ensures
        s.reverse().reverse() == s,
{
}

/// What `str::to_uppercase` makes of a text: its upper-case form by the
/// rules of Unicode, which may be longer than the text.
pub uninterp spec fn uppercase(s: Seq<char>) -> Seq<char>;

/// `str::to_uppercase`: the result is a function of the text alone, and is
/// known here only by its name.
#[verifier::external_body]
fn std_to_uppercase(input: &str) -> (r: String)
    ensures
        r@ == uppercase(input@),
{
    input.to_uppercase()
}

/// The upper-case form of `input`.
pub fn to_uppercase(input: &str) -> (r: String)
    ensures
        r@ == uppercase(input@),
{
    std_to_uppercase(input)
}

/// `rand::rngs::ThreadRng`, the handle to the generator of the current
/// thread.
#[verifier::external_type_specification]
#[verifier::external_body]
pub struct ExThreadRng(ThreadRng);

/// `rand::rng` hands out the generator of the current thread.
pub assume_specification[ rand::rng ]() -> (generator: ThreadRng)
;

/// `Rng::random_range` on the inclusive range from `min` to `max`: the number
/// drawn lies in the range. It panics on an empty range, which `requires`
/// leaves out.
#[verifier::external_body]
fn draw_between(generator: &mut ThreadRng, min: i32, max: i32) -> (n: i32)
    requires
        min <= max,
    ensures
        min <= n <= max,
{
    generator.random_range(min..=max)
}

/// `count` random integers between `min` and `max`, both included.
pub fn generate_random_numbers(count: usize, min: i32, max: i32) -> (values: Vec<i32>)
    requires
        min <= max,
    ensures
        values.len() == count,
        forall|i: int| 0 <= i < values.len() ==> min <= #[trigger] values[i] <= max,
{
    let mut generator = rand::rng();
    let mut values: Vec<i32> = Vec::new();
    let mut i: usize = 0;
    while i < count
        invariant
            i <= count,
            min <= max,
            values.len() == i,
            forall|j: int| 0 <= j < values.len() ==> min <= #[trigger] values[j] <= max,
        decreases count - i,
    {
        let n = draw_between(&mut generator, min, max);
        values.push(n);
        i += 1;
    }
    values
}

/// The decimal form of each number.
pub open spec fn number_texts(values: Seq<i32>) -> Seq<Seq<char>> {
    values.map_values(|n: i32| signed_decimal(n as int))
}

/// Renders numbers as a list between square brackets.
pub fn render_numbers(values: &Vec<i32>) -> (r: String)
    ensures
        r@ == bracketed(number_texts(values@)),
{
    let mut r = String::new();
    r.push('[');
    let mut i: usize = 0;
    while i < values.len()
        invariant
            i <= values.len(),
            r@ == seq!['['] + crate::text::joined(
                number_texts(values@).take(i as int),
                seq![',', ' '],
            ),
        decreases values.len() - i,
    {
        if i > 0 {
            r.push(',');
            r.push(' ');
        }
        push_signed_decimal(&mut r, values[i] as i64);
        assert(number_texts(values@).take(i + 1).drop_last() == number_texts(values@).take(
            i as int,
        ));
        i += 1;
    }
    assert(number_texts(values@).take(values.len() as int) == number_texts(values@));
    r.push(']');
    r
}

/// Whether `text` ends like a UTC date and time written to the second: month,
/// day, hour, minute and second with two digits each, the separators between
/// them, and a final `Z`, after a year of four characters or more.
pub open spec fn is_utc_stamp(text: Seq<char>) -> bool {
    let n = text.len() as int;
    &&& n >= 20
    &&& text[n - 16] == '-'
    &&& text[n - 13] == '-'
    &&& text[n - 10] == 'T'
    &&& text[n - 7] == ':'
    &&& text[n - 4] == ':'
    &&& text[n - 1] == 'Z'
    &&& forall|i: int|
        n - 16 < i < n - 1 && i != n - 13 && i != n - 10 && i != n - 7 && i != n - 4
            ==> crate::text::is_digit(#[trigger] text[i])
}

/// Reads the clock with `SystemTime::now`, converts the time with chrono's
/// `From<SystemTime>` for `DateTime<Utc>` and writes it with
/// `DateTime::to_rfc3339_opts`, to the second and with `Z` for the offset.
/// Which time is written depends on the clock; the contract states the shape
/// that every such text has.
#[verifier::external_body]
fn utc_now_rfc3339() -> (text: String)
    ensures
        is_utc_stamp(text@),
{
    let now: DateTime<Utc> = SystemTime::now().into();
    now.to_rfc3339_opts(SecondsFormat::Secs, true)
}

/// The current time in UTC, as `YYYY-MM-DDTHH:MM:SSZ`.
pub fn timestamp_iso() -> (text: String)
    ensures
        is_utc_stamp(text@),
{
    utc_now_rfc3339()
}

/// The SHA-256 digest of a sequence of bytes.
pub uninterp spec fn sha256(data: Seq<u8>) -> Seq<u8>;

/// `Sha256::digest` from the crate sha2: the digest is a function of the
/// bytes alone, known here by its name, and it is 32 bytes long.
#[verifier::external_body]
fn sha256_digest(data: &[u8]) -> (digest: Vec<u8>)
    ensures
        digest@ == sha256(data@),
        digest@.len() == 32,
{
    Sha256::digest(data).to_vec()
}

/// The character for a hexadecimal digit, in lower case.
pub open spec fn hex_digit(n: nat) -> char {
    if n < 10 {
        (48 + n) as char
    } else {
        (87 + n) as char
    }
}

/// Whether `c` is a hexadecimal digit in lower case.
pub open spec fn is_hex_digit(c: char) -> bool {
    48 <= c as int <= 57 || 97 <= c as int <= 102
}

/// Two hexadecimal digits for each byte, the high half first.
pub open spec fn hex_lower(bytes: Seq<u8>) -> Seq<char>
    decreases bytes.len(),
{
    if bytes.len() == 0 {
        Seq::empty()
    } else {
        hex_lower(bytes.drop_last()).push(hex_digit(bytes.last() as nat / 16)).push(
            hex_digit(bytes.last() as nat % 16),
        )
    }
}

/// The hexadecimal form of `n` bytes has `2 * n` characters, all of them
/// hexadecimal digits.
pub proof fn lemma_hex_lower_shape(bytes: Seq<u8>)
    ensures
        hex_lower(bytes).len() == 2 * bytes.len(),
        forall|i: int| 0 <= i < hex_lower(bytes).len() ==> is_hex_digit(#[trigger] hex_lower(bytes)[i]),
    decreases bytes.len(),
{
    if bytes.len() > 0 {
        lemma_hex_lower_shape(bytes.drop_last());
    }
}

fn hex_char(n: u8) -> (c: char)
    requires
        n < 16,
    ensures
        c == hex_digit(n as nat),
{
    if n < 10 {
        (48u8 + n) as char
    } else {
        (87u8 + n) as char
    }
}

/// Renders bytes in hexadecimal, in lower case.
pub fn to_hex(bytes: &Vec<u8>) -> (r: String)
    ensures
        r@ == hex_lower(bytes@),
{
    let mut r = String::new();
    let mut i: usize = 0;
    while i < bytes.len()
        invariant
            i <= bytes.len(),
            r@ == hex_lower(bytes@.take(i as int)),
        decreases bytes.len() - i,
    {
        let b = bytes[i];
        r.push(hex_char(b / 16));
        r.push(hex_char(b % 16));
        assert(bytes@.take(i + 1).drop_last() == bytes@.take(i as int));
        i += 1;
    }
    assert(bytes@.take(bytes.len() as int) == bytes@);
    r
}

/// The SHA-256 digest of the UTF-8 bytes of `input`, in hexadecimal: 64
/// hexadecimal digits in lower case.
pub fn sha256_hash(input: &str) -> (r: String)
    ensures
        r@ == hex_lower(sha256(encode_utf8(input@))),
        r@.len() == 64,
        forall|i: int| 0 <= i < r@.len() ==> is_hex_digit(#[trigger] r@[i]),
{
    let digest = sha256_digest(input.as_bytes());
    proof {
        lemma_hex_lower_shape(digest@);
    }
    to_hex(&digest)
}

/// What `char::is_alphanumeric` says of a character: whether Unicode counts
/// it as a letter or a number.
pub uninterp spec fn is_alphanumeric(c: char) -> bool;

/// `char::is_alphanumeric`: the answer is a function of the character alone,
/// known here by its name.
#[verifier::external_body]
fn alphanumeric(c: char) -> (r: bool)
    ensures
        r == is_alphanumeric(c),
{
    c.is_alphanumeric()
}

/// Whether a file may have this name: nothing in it but letters, numbers and
/// underscores.
pub open spec fn is_valid_name(name: Seq<char>) -> bool {
    forall|i: int| 0 <= i < name.len() ==> is_alphanumeric(#[trigger] name[i]) || name[i] == '_'
}

/// Whether a file may have this name.
pub fn valid_file_name(name: &str) -> (r: bool)
    ensures
        r == is_valid_name(name@),
{
    let v = chars_of(name);
    let mut i: usize = 0;
    while i < v.len()
        invariant
            i <= v.len(),
            v@ == name@,
            forall|j: int| 0 <= j < i ==> is_alphanumeric(#[trigger] v@[j]) || v@[j] == '_',
        decreases v.len() - i,
    {
        if !(alphanumeric(v[i]) || v[i] == '_') {
            return false;
        }
        i += 1;
    }
    true
}

/// The directory that holds the files.
pub open spec fn storage_folder() -> Seq<char> {
    "archivos"@
}

/// Where the file called `name` is kept.
pub open spec fn storage_path(name: Seq<char>) -> Seq<char> {
    storage_folder() + "/"@ + name + ".txt"@
}

/// The directory that holds the files.
pub fn file_folder() -> (folder: &'static str)
    ensures
        folder@ == storage_folder(),
{
    "archivos"
}

/// What is said of a name that no file may have.
pub open spec fn invalid_name_message() -> Seq<char> {
    "Nombre del archivo invàlido (Solo se permiten alfanùmericos)"@
}

/// Where the file called `name` is kept, or why no file may be called so.
pub fn file_path(name: &str) -> (r: Result<String, String>)
    ensures
        match r {
            Ok(path) => is_valid_name(name@) && path@ == storage_path(name@),
            Err(msg) => !is_valid_name(name@) && msg@ == invalid_name_message(),
        },
{
    if !valid_file_name(name) {
        return Err(
            String::from_str("Nombre del archivo invàlido (Solo se permiten alfanùmericos)"),
        );
    }
    let mut path = String::from_str("archivos");
    path.append("/");
    path.append(name);
    path.append(".txt");
    Ok(path)
}

/// How far the creation of a file got. The steps are taken in this order:
/// make sure that the directory is there, see that the file is not, create
/// it, write its content.
#[derive(Debug, Clone, Copy, PartialEq, Eq, Structural)]
pub enum CreateOutcome {
    /// The directory could not be created.
    DirectoryUnavailable,
    /// A file of that name is there already.
    AlreadyExists,
    /// The file could not be created.
    CreateFailed,
    /// The file was created, but its content could not be written.
    WriteFailed,
    /// The file is there with its content.
    Created,
}

/// How far the removal of a file got: see that the file is there, then
/// remove it.
#[derive(Debug, Clone, Copy, PartialEq, Eq, Structural)]
pub enum DeleteOutcome {
    /// No file of that name is there.
    Missing,
    /// The file is there, but could not be removed.
    RemoveFailed,
    /// The file is gone.
    Removed,
}

/// What is said of the creation of the file at `path`: a confirmation, or
/// the reason why the file was not created.
pub open spec fn create_reply(path: Seq<char>, outcome: CreateOutcome) -> Result<
    Seq<char>,
    Seq<char>,
> {
    match outcome {
        CreateOutcome::DirectoryUnavailable => Err("No se pudo crear el directorio"@),
        CreateOutcome::AlreadyExists => Err("El archivo '"@ + path + "' ya existe"@),
        CreateOutcome::CreateFailed => Err("No se pudo crear el archivo"@),
        CreateOutcome::WriteFailed => Err("Error escribiendo en el archivo"@),
        CreateOutcome::Created => Ok("Archivo '"@ + path + "' creado exitosamente"@),
    }
}

/// What is said of the removal of the file at `path`: a confirmation, or the
/// reason why the file was not removed.
pub open spec fn delete_reply(path: Seq<char>, outcome: DeleteOutcome) -> Result<
    Seq<char>,
    Seq<char>,
> {
    match outcome {
        DeleteOutcome::Missing => Err("El archivo '"@ + path + "' no existe"@),
        DeleteOutcome::RemoveFailed => Err("No se pudo eliminar el archivo '"@ + path + "'"@),
        DeleteOutcome::Removed => Ok("Archivo '"@ + path + "' eliminado exitosamente"@),
    }
}

/// The characters of the text on either side of a result.
pub open spec fn result_view(r: Result<String, String>) -> Result<Seq<char>, Seq<char>> {
    match r {
        Ok(s) => Ok(s@),
        Err(s) => Err(s@),
    }
}

/// Words the result of creating the file at `path`.
pub fn create_file_reply(path: &str, outcome: CreateOutcome) -> (r: Result<String, String>)
    ensures
        result_view(r) == create_reply(path@, outcome),
{
    match outcome {
        CreateOutcome::DirectoryUnavailable => Err(
            String::from_str("No se pudo crear el directorio"),
        ),
        CreateOutcome::AlreadyExists => Err(enclose("El archivo '", path, "' ya existe")),
        CreateOutcome::CreateFailed => Err(String::from_str("No se pudo crear el archivo")),
        CreateOutcome::WriteFailed => Err(String::from_str("Error escribiendo en el archivo")),
        CreateOutcome::Created => Ok(enclose("Archivo '", path, "' creado exitosamente")),
    }
}

/// Words the result of removing the file at `path`.
pub fn delete_file_reply(path: &str, outcome: DeleteOutcome) -> (r: Result<String, String>)
    ensures
        result_view(r) == delete_reply(path@, outcome),
{
    match outcome {
        DeleteOutcome::Missing => Err(enclose("El archivo '", path, "' no existe")),
        DeleteOutcome::RemoveFailed => Err(enclose("No se pudo eliminar el archivo '", path, "'")),
        DeleteOutcome::Removed => Ok(enclose("Archivo '", path, "' eliminado exitosamente")),
    }
}

} // verus!
