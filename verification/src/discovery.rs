//! Where the host application may be listening: one socket path under a base
//! directory taken from the environment, or ten named pipes.

use vstd::prelude::*;
use vstd::string::*;

verus! {

/// The two families of transport, which differ in how endpoints are named.
#[derive(Clone, Copy, Debug, PartialEq, Eq, Structural)]
pub enum Platform {
    /// A Unix domain socket under a base directory.
    Posix,
    /// A named pipe, one of ten.
    Windows,
}

/// The highest number of a pipe; the lowest is 0.
pub const LAST_PIPE: u8 = 9;

/// The name of the environment variable of the given rank, most preferred first.
pub open spec fn env_key_name(rank: int) -> Seq<char> {
    if rank == 0 {
        "XDG_RUNTIME_DIR"@
    } else if rank == 1 {
        "TMPDIR"@
    } else {
        "TMP"@
    }
}

/// The environment variables that may name the base directory, most
/// preferred first.
pub fn env_keys() -> (keys: [&'static str; 3])
    ensures
        forall|rank: int| 0 <= rank < 3 ==> (#[trigger] keys@[rank])@ == env_key_name(rank),
{
    ["XDG_RUNTIME_DIR", "TMPDIR", "TMP"]
}

/// A looked-up variable counts where it is set and not empty.
pub open spec fn is_set(value: Option<String>) -> bool {
    value is Some && value->Some_0@.len() > 0
}

/// The value of the first variable that counts, or the empty string where
/// none does.
pub open spec fn first_set(values: Seq<Option<String>>) -> Seq<char>
    decreases values.len(),
{
    if values.len() == 0 {
        Seq::empty()
    } else if is_set(values[0]) {
        values[0]->Some_0@
    } else {
        first_set(values.drop_first())
    }
}

/// `first_set` is the value at the least index that counts.
pub proof fn lemma_first_set(values: Seq<Option<String>>)
    ensures
        (forall|i: int| 0 <= i < values.len() ==> !is_set(#[trigger] values[i])) ==> first_set(
            values,
        ) == Seq::<char>::empty(),
        forall|i: int|
            0 <= i < values.len() && is_set(#[trigger] values[i]) && (forall|j: int|
                0 <= j < i ==> !is_set(#[trigger] values[j])) ==> first_set(values)
                == values[i]->Some_0@,
    decreases values.len(),
{
    if values.len() > 0 {
        let rest = values.drop_first();
        lemma_first_set(rest);
        assert forall|i: int|
            0 <= i < values.len() && is_set(#[trigger] values[i]) && (forall|j: int|
                0 <= j < i ==> !is_set(#[trigger] values[j])) implies first_set(values)
            == values[i]->Some_0@ by {
            if i > 0 {
                assert(!is_set(values[0]));
                assert(rest[i - 1] == values[i]);
                assert forall|j: int| 0 <= j < i - 1 implies !is_set(#[trigger] rest[j]) by {
                    assert(rest[j] == values[j + 1]);
                }
            }
        }
        if forall|i: int| 0 <= i < values.len() ==> !is_set(#[trigger] values[i]) {
            assert(!is_set(values[0]));
            assert forall|i: int| 0 <= i < rest.len() implies !is_set(#[trigger] rest[i]) by {
                assert(rest[i] == values[i + 1]);
            }
        }
    }
}

/// Picks the base directory from the values found for the environment
/// variables, given in order of preference: the first that is set and not
/// empty, or the empty string.
pub fn base_directory(values: &[Option<String>]) -> (base: String)
    ensures
        base@ == first_set(values@),
{
    let mut i: usize = 0;
    assert(values@.skip(0) =~= values@);
    while i < values.len()
        invariant
            i <= values@.len(),
            first_set(values@) == first_set(values@.skip(i as int)),
        decreases values@.len() - i,
    {
        let ghost rest = values@.skip(i as int);
        assert(rest[0] == values@[i as int]);
        assert(rest.drop_first() =~= values@.skip(i + 1));
        match &values[i] {
            Some(value) => {
                if !value.as_str().is_empty() {
                    return value.clone();
                }
            },
            None => {},
        }
        i += 1;
    }
    assert(values@.skip(i as int).len() == 0);
    String::new()
}

/// The decimal digit for a pipe number.
pub open spec fn digit_text(index: int) -> Seq<char> {
    seq![((48 + index) as u8) as char]
}

/// The name of the endpoint with the given number: `discord-ipc-N`.
pub open spec fn endpoint_name(index: int) -> Seq<char> {
    "discord-ipc-"@ + digit_text(index)
}

/// `name` under the directory `base`: the two joined by one `/`, which is
/// left out after an empty base and after a base that ends in one.
pub open spec fn joined(base: Seq<char>, name: Seq<char>) -> Seq<char> {
    if base.len() == 0 {
        name
    } else if base.last() == '/' {
        base + name
    } else {
        base + seq!['/'] + name
    }
}

/// The one socket path tried on POSIX.
pub open spec fn posix_endpoint(base: Seq<char>) -> Seq<char> {
    joined(base, endpoint_name(0))
}

/// The path of the pipe with the given number.
pub open spec fn windows_endpoint(index: int) -> Seq<char> {
    "\\\\.\\pipe\\"@ + endpoint_name(index)
}

/// The endpoints to try, in the order in which they are tried.
pub open spec fn endpoints(platform: Platform, base: Seq<char>) -> Seq<Seq<char>> {
    match platform {
        Platform::Posix => seq![posix_endpoint(base)],
        Platform::Windows => Seq::new(10, |index: int| windows_endpoint(index)),
    }
}

/// POSIX discovery names one endpoint, and the values found in the
/// environment determine it: the endpoint numbered 0 under the first value
/// that is set and not empty. Where no value counts, it is the bare name of
/// the endpoint, a path relative to the working directory.
pub proof fn lemma_posix_discovery(values: Seq<Option<String>>)
    ensures
        endpoints(Platform::Posix, first_set(values)).len() == 1,
        endpoints(Platform::Posix, first_set(values))[0] == joined(
            first_set(values),
            endpoint_name(0),
        ),
        (forall|i: int| 0 <= i < values.len() ==> !is_set(#[trigger] values[i])) ==> endpoints(
            Platform::Posix,
            first_set(values),
        )[0] == endpoint_name(0),
{
    lemma_first_set(values);
}

/// Two environments that agree on which variables count, and on the values
/// of those, give the same base directory.
pub proof fn lemma_discovery_determined(a: Seq<Option<String>>, b: Seq<Option<String>>)
    requires
        a.len() == b.len(),
        forall|i: int| 0 <= i < a.len() ==> is_set(#[trigger] a[i]) == is_set(b[i]),
        forall|i: int| 0 <= i < a.len() && is_set(#[trigger] a[i]) ==> a[i]->Some_0@ == b[i]->Some_0@,
    ensures
        first_set(a) == first_set(b),
        endpoints(Platform::Posix, first_set(a)) == endpoints(Platform::Posix, first_set(b)),
    decreases a.len(),
{
    if a.len() > 0 {
        assert(is_set(a[0]) == is_set(b[0]));
        if !is_set(a[0]) {
            let ra = a.drop_first();
            let rb = b.drop_first();
            assert forall|i: int| 0 <= i < ra.len() implies is_set(#[trigger] ra[i]) == is_set(
                rb[i],
            ) by {
                assert(ra[i] == a[i + 1] && rb[i] == b[i + 1]);
                assert(is_set(a[i + 1]) == is_set(b[i + 1]));
            }
            assert forall|i: int| 0 <= i < ra.len() && is_set(#[trigger] ra[i]) implies ra[i]->Some_0@
                == rb[i]->Some_0@ by {
                assert(ra[i] == a[i + 1] && rb[i] == b[i + 1]);
                assert(is_set(a[i + 1]));
            }
            lemma_discovery_determined(ra, rb);
        }
    }
}

/// Windows discovery names the ten pipes in ascending order of their
/// number, whatever the environment holds.
pub proof fn lemma_windows_discovery(base: Seq<char>)
    ensures
        endpoints(Platform::Windows, base).len() == 10,
        forall|i: int|
            0 <= i < 10 ==> #[trigger] endpoints(Platform::Windows, base)[i] == windows_endpoint(i),
{
}

/// The decimal digit for `index`.
fn digit(index: u8) -> (s: &'static str)
    requires
        index <= LAST_PIPE,
    ensures
        s@ == digit_text(index as int),
{
    proof {
        reveal_strlit("0");
        reveal_strlit("1");
        reveal_strlit("2");
        reveal_strlit("3");
        reveal_strlit("4");
        reveal_strlit("5");
        reveal_strlit("6");
        reveal_strlit("7");
        reveal_strlit("8");
        reveal_strlit("9");
    }
    let s = match index {
        0 => "0",
        1 => "1",
        2 => "2",
        3 => "3",
        4 => "4",
        5 => "5",
        6 => "6",
        7 => "7",
        8 => "8",
        _ => "9",
    };
    assert(s@ =~= digit_text(index as int));
    s
}

/// Appends the name of the endpoint numbered `index` to `prefix`.
fn with_endpoint_name(prefix: String, index: u8) -> (s: String)
    requires
        index <= LAST_PIPE,
    ensures
        s@ == prefix@ + endpoint_name(index as int),
{
    let s = prefix.concat("discord-ipc-").concat(digit(index));
    assert(s@ =~= prefix@ + endpoint_name(index as int));
    s
}

/// The socket path under `base`.
pub fn posix_candidate(base: &str) -> (path: String)
    ensures
        path@ == posix_endpoint(base@),
{
    let n = base.unicode_len();
    let mut path = String::from_str(base);
    if n > 0 && base.get_char(n - 1) != '/' {
        path.append("/");
        proof {
            reveal_strlit("/");
            assert(path@ =~= base@ + seq!['/']);
        }
    }
    let path = with_endpoint_name(path, 0);
    assert(path@ =~= posix_endpoint(base@));
    path
}

/// The path of the pipe numbered `index`.
pub fn pipe_candidate(index: u8) -> (path: String)
    requires
        index <= LAST_PIPE,
    ensures
        path@ == windows_endpoint(index as int),
{
    with_endpoint_name(String::from_str("\\\\.\\pipe\\"), index)
}

/// Lists the endpoints to try on `platform`, in the order in which they are
/// tried. `base` is the base directory, which only POSIX uses.
pub fn candidates(platform: Platform, base: &str) -> (list: Vec<String>)
    ensures
        list@.len() == endpoints(platform, base@).len(),
        forall|i: int| 0 <= i < list@.len() ==> (#[trigger] list@[i])@ == endpoints(platform, base@)[i],
{
    let mut list: Vec<String> = Vec::new();
    match platform {
        Platform::Posix => {
            list.push(posix_candidate(base));
        },
        Platform::Windows => {
            let mut index: u8 = 0;
            while index <= LAST_PIPE
                invariant
                    index <= LAST_PIPE + 1,
                    list@.len() == index,
                    forall|i: int| 0 <= i < index ==> (#[trigger] list@[i])@ == windows_endpoint(i),
                decreases LAST_PIPE + 1 - index,
            {
                list.push(pipe_candidate(index));
                index += 1;
            }
        },
    }
    list
}

} // verus!
