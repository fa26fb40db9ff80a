//! Names of POSIX message queues.

use crate::InvalidNameError;
use vstd::prelude::*;

verus! {

/// What every queue of this library is named with, before the notification name.
pub const NAME_PREFIX: &'static str = "sys-broadc-";

/// The size in bytes of the longest name of a queue on Linux, without the slash in front
/// and the NUL behind. The system headers call it by the same name.
pub const NAME_MAX: usize = 255;

/// The byte that starts a queue name and may not occur in it again.
pub const SLASH: u8 = 0x2f;

/// The UTF-8 bytes of `text`.
pub open spec fn utf8(text: Seq<char>) -> Seq<u8> {
    vstd::utf8::encode_utf8(text)
}

/// The name of the queue that carries the notifications called `notification_name`,
/// without its terminating NUL.
pub open spec fn queue_path(notification_name: Seq<char>) -> Seq<u8> {
    seq![SLASH] + utf8(NAME_PREFIX@) + utf8(notification_name)
}

/// Why `notification_name` cannot be part of a queue name, or `None` if it can.
///
/// Where several reasons hold, the one that stands first here is given.
pub open spec fn name_error(notification_name: Seq<char>) -> Option<InvalidNameError> {
    if notification_name.len() == 0 {
        Some(InvalidNameError::Empty)
    } else if utf8(NAME_PREFIX@).len() + utf8(notification_name).len() > NAME_MAX {
        Some(InvalidNameError::TooLong)
    } else if notification_name.contains('/') {
        Some(InvalidNameError::ContainsSlash)
    } else if notification_name.contains('\0') {
        Some(InvalidNameError::ContainsNul)
    } else {
        None
    }
}

/// Whether `path` can name a queue: a slash, then at least one byte and at most as many
/// as a name may have, none of them a slash or NUL.
pub open spec fn valid_queue_path(path: Seq<u8>) -> bool {
    &&& 2 <= path.len() <= 1 + NAME_MAX
    &&& path[0] == SLASH
    &&& forall|i: int| 0 < i < path.len() ==> #[trigger] path[i] != SLASH && path[i] != 0
}

/// The name of a message queue, as a NUL-terminated string.
///
/// Its view is the name without the NUL.
#[derive(Debug)]
pub struct QueueName {
    bytes: Vec<u8>,
}

impl View for QueueName {
    type V = Seq<u8>;

    closed spec fn view(&self) -> Seq<u8> {
        self.bytes@.drop_last()
    }
}

impl QueueName {
    #[verifier::type_invariant]
    spec fn terminated(self) -> bool {
        &&& self.bytes@.len() > 0
        &&& self.bytes@.last() == 0
        &&& valid_queue_path(self.bytes@.drop_last())
    }

    /// The name with its terminating NUL.
    pub fn as_bytes_with_nul(&self) -> (bytes: &[u8])
        ensures
            bytes@ == self@.push(0),
            valid_queue_path(self@),
    {
        proof {
            use_type_invariant(self);
        }
        assert(self.bytes@.drop_last().push(0) =~= self.bytes@);
        self.bytes.as_slice()
    }
}

/// Whether `wanted` occurs in `bytes`.
fn contains_byte(bytes: &[u8], wanted: u8) -> (found: bool)
    ensures
        found == bytes@.contains(wanted),
{
    let mut i: usize = 0;
    while i < bytes.len()
        invariant
            i <= bytes@.len(),
            forall|j: int| 0 <= j < i ==> bytes@[j] != wanted,
        decreases bytes@.len() - i,
    {
        if bytes[i] == wanted {
            return true;
        }
        i += 1;
    }
    false
}

/// Makes the name of the queue that carries the notifications called
/// `notification_name`.
///
/// The name has the form that [mq_overview] asks for: a slash, followed by one or more
/// characters, none of which are slashes, and no longer than the system can use.
///
/// [mq_overview]: <https://linux.die.net/man/7/mq_overview>
pub fn create_name(notification_name: &str) -> (name: Result<QueueName, InvalidNameError>)
    ensures
        match name_error(notification_name@) {
            Some(error) => name == Err::<QueueName, InvalidNameError>(error),
            None => name matches Ok(name) && name@ == queue_path(notification_name@),
        },
        name matches Ok(name) ==> name@ == vstd::utf8::encode_utf8(
            "/sys-broadc-"@ + notification_name@,
        ),
        name is Ok <==> {
            &&& notification_name@.len() > 0
            &&& vstd::utf8::encode_utf8("/sys-broadc-"@ + notification_name@).len() <= 1 + NAME_MAX
            &&& !notification_name@.contains('/')
            &&& !notification_name@.contains('\0')
        },
{
    let bytes = notification_name.as_bytes();
    let prefix = NAME_PREFIX.as_bytes();
    proof {
        lemma_prefix();
        lemma_ascii_byte(notification_name@, SLASH, '/');
        lemma_ascii_byte(notification_name@, 0, '\0');
        queue_path_is_prefix_and_name(notification_name@);
    }

    if notification_name.is_empty() {
        return Err(InvalidNameError::Empty);
    }
    if bytes.len() > NAME_MAX - prefix.len() {
        return Err(InvalidNameError::TooLong);
    }
    if contains_byte(bytes, SLASH) {
        return Err(InvalidNameError::ContainsSlash);
    }
    if contains_byte(bytes, 0) {
        return Err(InvalidNameError::ContainsNul);
    }

    let mut name: Vec<u8> = Vec::new();
    name.push(SLASH);
    name.extend_from_slice(prefix);
    name.extend_from_slice(bytes);
    assert(name@ =~= queue_path(notification_name@));
    proof {
        queue_path_is_valid(notification_name@);
    }
    name.push(0);
    assert(name@.drop_last() =~= queue_path(notification_name@));
    Ok(QueueName { bytes: name })
}

/// A name that is not empty, fits with the prefix into the longest queue name, and has
/// neither a slash nor NUL among its characters is accepted, whatever else is in it.
pub proof fn usable_names_are_accepted(notification_name: Seq<char>)
    requires
        notification_name.len() > 0,
        vstd::utf8::encode_utf8("/sys-broadc-"@ + notification_name).len() <= 1 + NAME_MAX,
        forall|i: int|
            0 <= i < notification_name.len() ==> #[trigger] notification_name[i] != '/'
                && notification_name[i] != '\0',
    ensures
        name_error(notification_name) is None,
{
    queue_path_is_prefix_and_name(notification_name);
}

/// A name is refused only for a reason that holds of it, and for the first one that does:
/// it is empty; it does not fit; a slash occurs in it; NUL occurs in it.
pub proof fn refused_names_deserve_it(notification_name: Seq<char>)
    ensures
        name_error(notification_name) == Some(InvalidNameError::Empty) <==> notification_name
            =~= Seq::<char>::empty(),
        name_error(notification_name) == Some(InvalidNameError::TooLong) <==> {
            &&& notification_name.len() > 0
            &&& vstd::utf8::encode_utf8("/sys-broadc-"@ + notification_name).len() > 1 + NAME_MAX
        },
        name_error(notification_name) == Some(InvalidNameError::ContainsSlash) ==> exists|i: int|
            0 <= i < notification_name.len() && notification_name[i] == '/',
        name_error(notification_name) == Some(InvalidNameError::ContainsNul) ==> exists|i: int|
            0 <= i < notification_name.len() && notification_name[i] == '\0',
        (notification_name.contains('/') || notification_name.contains('\0')) ==> name_error(
            notification_name,
        ) is Some,
        notification_name.contains('/') ==> name_error(notification_name) != Some(
            InvalidNameError::ContainsNul,
        ),
{
    queue_path_is_prefix_and_name(notification_name);
}

/// Whether a name that fits is accepted depends on its slashes and NULs alone: any other
/// characters may be put in their place without making a difference.
pub proof fn other_characters_make_no_difference(left: Seq<char>, right: Seq<char>)
    requires
        left.len() == right.len(),
        forall|i: int|
            0 <= i < left.len() ==> (#[trigger] left[i] == '/' <==> right[i] == '/') && (left[i]
                == '\0' <==> right[i] == '\0'),
        vstd::utf8::encode_utf8("/sys-broadc-"@ + left).len() <= 1 + NAME_MAX,
        vstd::utf8::encode_utf8("/sys-broadc-"@ + right).len() <= 1 + NAME_MAX,
    ensures
        name_error(left) == name_error(right),
{
    queue_path_is_prefix_and_name(left);
    queue_path_is_prefix_and_name(right);
    assert forall|c: char| c == '/' || c == '\0' implies left.contains(c) == right.contains(c) by {
        if left.contains(c) {
            let i = choose|i: int| 0 <= i < left.len() && left[i] == c;
            assert(right[i] == c);
        }
        if right.contains(c) {
            let i = choose|i: int| 0 <= i < right.len() && right[i] == c;
            assert(left[i] == c);
        }
    }
}

/// The queue name is the text that starts with a slash and the prefix and goes on with the
/// notification name, as it is.
pub proof fn queue_path_is_prefix_and_name(notification_name: Seq<char>)
    ensures
        queue_path(notification_name) == vstd::utf8::encode_utf8(
            "/sys-broadc-"@ + notification_name,
        ),
        queue_path(notification_name).len() == 1 + utf8(NAME_PREFIX@).len() + utf8(
            notification_name,
        ).len(),
{
    reveal_strlit("/sys-broadc-");
    reveal_strlit("sys-broadc-");
    let slash = seq!['/'];
    assert("/sys-broadc-"@ + notification_name =~= slash + (NAME_PREFIX@ + notification_name));
    lemma_encoding_of_joined(slash, NAME_PREFIX@ + notification_name);
    lemma_encoding_of_joined(NAME_PREFIX@, notification_name);
    lemma_ascii_scalar('/' as u32, SLASH);
    assert(slash.drop_first() =~= Seq::empty());
    assert(utf8(slash.drop_first()) =~= Seq::<u8>::empty());
    assert(utf8(slash) =~= seq![SLASH]);
    assert(queue_path(notification_name) =~= utf8(slash) + (utf8(NAME_PREFIX@) + utf8(
        notification_name,
    )));
}

/// Joined texts are encoded one after the other.
proof fn lemma_encoding_of_joined(left: Seq<char>, right: Seq<char>)
    ensures
        vstd::utf8::encode_utf8(left + right) == vstd::utf8::encode_utf8(left)
            + vstd::utf8::encode_utf8(right),
    decreases left.len(),
{
    if left.len() == 0 {
        assert(left + right =~= right);
        assert(vstd::utf8::encode_utf8(left) + vstd::utf8::encode_utf8(right)
            =~= vstd::utf8::encode_utf8(right));
    } else {
        assert((left + right).drop_first() =~= left.drop_first() + right);
        lemma_encoding_of_joined(left.drop_first(), right);
        assert(vstd::utf8::encode_utf8(left + right) =~= vstd::utf8::encode_utf8(left)
            + vstd::utf8::encode_utf8(right));
    }
}

/// An accepted notification name gives a queue name of the form that the system asks for.
pub proof fn queue_path_is_valid(notification_name: Seq<char>)
    requires
        name_error(notification_name) is None,
    ensures
        valid_queue_path(queue_path(notification_name)),
        1 < queue_path(notification_name).len() <= 1 + NAME_MAX,
        forall|i: int|
            0 <= i < queue_path(notification_name).len() ==> {
                &&& #[trigger] queue_path(notification_name)[i] != 0
                &&& queue_path(notification_name)[i] == 0x2f <==> i == 0
            },
{
    lemma_prefix();
    lemma_ascii_byte(notification_name, SLASH, '/');
    lemma_ascii_byte(notification_name, 0, '\0');
    let prefix = utf8(NAME_PREFIX@);
    let rest = utf8(notification_name);
    let path = queue_path(notification_name);
    assert forall|i: int| 0 < i < path.len() implies #[trigger] path[i] != SLASH && path[i]
        != 0 by {
        if i <= prefix.len() {
            assert(path[i] == prefix[i - 1]);
        } else {
            assert(path[i] == rest[i - 1 - prefix.len()]);
        }
    }
}

/// Endpoints meet in one queue exactly if they were made for the same notification name.
pub proof fn queue_path_is_injective(left: Seq<char>, right: Seq<char>)
    ensures
        queue_path(left) == queue_path(right) <==> left == right,
{
    if queue_path(left) == queue_path(right) {
        let skip = 1 + utf8(NAME_PREFIX@).len();
        assert(queue_path(left).skip(skip as int) =~= utf8(left));
        assert(queue_path(right).skip(skip as int) =~= utf8(right));
        vstd::utf8::encode_utf8_decode_utf8(left);
        vstd::utf8::encode_utf8_decode_utf8(right);
    }
}

/// The prefix takes eleven bytes, none of them a slash or NUL.
proof fn lemma_prefix()
    ensures
        utf8(NAME_PREFIX@).len() == 11,
        !utf8(NAME_PREFIX@).contains(SLASH),
        !utf8(NAME_PREFIX@).contains(0),
{
    reveal_strlit("sys-broadc-");
    vstd::utf8::is_ascii_chars_encode_utf8(NAME_PREFIX@);
    lemma_ascii_byte(NAME_PREFIX@, SLASH, '/');
    lemma_ascii_byte(NAME_PREFIX@, 0, '\0');
}

/// An ASCII byte occurs in UTF-8 text exactly where its character occurs in the text.
proof fn lemma_ascii_byte(text: Seq<char>, byte: u8, character: char)
    requires
        byte < 0x80,
        byte as u32 == character as u32,
    ensures
        utf8(text).contains(byte) <==> text.contains(character),
    decreases text.len(),
{
    if text.len() > 0 {
        let rest = text.drop_first();
        let head = vstd::utf8::encode_scalar(text[0] as u32);
        lemma_ascii_byte(rest, byte, character);
        lemma_ascii_scalar(text[0] as u32, byte);
        assert(text =~= seq![text[0]] + rest);
        assert(utf8(text) == head + utf8(rest));
        if text.contains(character) {
            if text[0] == character {
                assert(utf8(text)[0] == byte);
            } else {
                let i = choose|i: int| 0 <= i < text.len() && text[i] == character;
                assert(rest[i - 1] == character);
                let j = choose|j: int| 0 <= j < utf8(rest).len() && utf8(rest)[j] == byte;
                assert(utf8(text)[head.len() + j] == byte);
            }
        }
        if utf8(text).contains(byte) {
            let j = choose|j: int| 0 <= j < utf8(text).len() && utf8(text)[j] == byte;
            if j < head.len() {
                assert(head[j] == byte);
                vstd::utf8::char_u32_cast(text[0], byte as u32);
                assert(text[0] == character);
            } else {
                assert(utf8(rest)[j - head.len()] == byte);
                let i = choose|i: int| 0 <= i < rest.len() && rest[i] == character;
                assert(text[i + 1] == character);
            }
        }
    }
}

/// An ASCII byte occurs in the encoding of one scalar value only if it is that value.
proof fn lemma_ascii_scalar(scalar: u32, byte: u8)
    requires
        byte < 0x80,
    ensures
        vstd::utf8::encode_scalar(scalar).contains(byte) <==> scalar == byte as u32,
        scalar == byte as u32 ==> vstd::utf8::encode_scalar(scalar) =~= seq![byte],
{
    assert(scalar <= 0x7f ==> (scalar & 0x7f) as u8 == scalar) by (bit_vector);
    let low = (scalar & 0x3f) as u8;
    let middle = ((scalar >> 6) & 0x3f) as u8;
    let high = ((scalar >> 12) & 0x3f) as u8;
    let lead2 = ((scalar >> 6) & 0x1f) as u8;
    let lead3 = ((scalar >> 12) & 0x0f) as u8;
    let lead4 = ((scalar >> 18) & 0x7) as u8;
    assert(0x80u8 | low >= 0x80 && 0x80u8 | middle >= 0x80 && 0x80u8 | high >= 0x80) by (bit_vector);
    assert(0xc0u8 | lead2 >= 0x80 && 0xe0u8 | lead3 >= 0x80 && 0xf0u8 | lead4 >= 0x80)
        by (bit_vector);
    if scalar == byte as u32 {
        assert(vstd::utf8::encode_scalar(scalar)[0] == byte);
    }
}

} // verus!
