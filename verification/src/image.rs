//! Which files of a folder count as images: those whose name ends in one of
//! the accepted extensions.

use vstd::prelude::*;

verus! {

/// The character that parts a file name from its extension.
pub open spec fn dot() -> char {
    '.'
}

/// The position of the last dot of `name` before `end`, or -1 where there is
/// none.
pub open spec fn last_dot(name: Seq<char>, end: int) -> int
    decreases end,
{
    if end <= 0 {
        -1
    } else if name[end - 1] == dot() {
        end - 1
    } else {
        last_dot(name, end - 1)
    }
}

/// The extension of a file name: what follows its last dot. A name without
/// a dot has none, and neither has a name whose only dot is its first
/// character.
pub open spec fn extension_of(name: Seq<char>) -> Option<Seq<char>> {
    let at = last_dot(name, name.len() as int);
    if at <= 0 {
        None
    } else {
        Some(name.subrange(at + 1, name.len() as int))
    }
}

/// Whether an extension is one of `jpg`, `jpeg` and `png`, in lower case.
pub open spec fn accepted_format(extension: Seq<char>) -> bool {
    ||| extension == seq!['j', 'p', 'g']
    ||| extension == seq!['j', 'p', 'e', 'g']
    ||| extension == seq!['p', 'n', 'g']
}

/// Whether a file name is that of an image.
pub open spec fn is_image(name: Seq<char>) -> bool {
    match extension_of(name) {
        Some(extension) => accepted_format(extension),
        None => false,
    }
}

/// The names of `names` that are those of images, in the order of `names`.
pub open spec fn images_among(names: Seq<Seq<char>>) -> Seq<Seq<char>>
    decreases names.len(),
{
    if names.len() == 0 {
        Seq::empty()
    } else if is_image(names.last()) {
        images_among(names.drop_last()).push(names.last())
    } else {
        images_among(names.drop_last())
    }
}

/// Whether a file name is that of an image.
pub fn has_image_extension(name: &str) -> (accepted: bool)
    ensures
        accepted == is_image(name@),
{
    let len = name.unicode_len();
    let mut end = len;
    while end > 0 && name.get_char(end - 1) != '.'
        invariant
            end <= len,
            len == name@.len(),
            last_dot(name@, end as int) == last_dot(name@, len as int),
        decreases end,
    {
        end = end - 1;
    }
    if end <= 1 {
        return false;
    }
    let extension = name.substring_char(end, len).to_owned();
    proof {
        reveal_strlit("jpg");
        reveal_strlit("jpeg");
        reveal_strlit("png");
        assert("jpg"@ =~= seq!['j', 'p', 'g']);
        assert("jpeg"@ =~= seq!['j', 'p', 'e', 'g']);
        assert("png"@ =~= seq!['p', 'n', 'g']);
    }
    extension == String::from_str("jpg") || extension == String::from_str("jpeg") || extension
        == String::from_str("png")
}

} // verus!
