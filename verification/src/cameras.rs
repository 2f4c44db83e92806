//! The cameras of a console as the host lists them: in order, under labels that
//! can be printed and have a bounded length.
use crate::errors::{bare, HostError, HostErrorKind};
use crate::location::optional_text;
use crate::settings::plain_verdict;
use crate::text::{
    characters, comes_before, lemma_text_before_irreflexive, lemma_text_before_total,
    lemma_text_before_transitive, same_text, text_before,
};
use vstd::prelude::*;
use vstd::utf8::*;

verus! {

/// A control character: category Cc of Unicode.
pub open spec fn is_control(c: char) -> bool {
    ||| c <= '\u{1f}'
    ||| '\u{7f}' <= c <= '\u{9f}'
}

/// A text without its control characters.
pub open spec fn printable(text: Seq<char>) -> Seq<char> {
    text.filter(|c: char| !is_control(c))
}

/// The number of bytes of a text in UTF-8.
pub open spec fn byte_length(text: Seq<char>) -> nat {
    encode_utf8(text).len()
}

/// The number of bytes of a character in UTF-8.
pub open spec fn byte_width(c: char) -> nat {
    encode_scalar(c as u32).len()
}

/// How many characters of a text fit into so many bytes.
pub open spec fn fitting(text: Seq<char>, bytes: int) -> nat
    decreases text.len(),
{
    if text.len() == 0 || byte_width(text[0]) > bytes {
        0
    } else {
        1 + fitting(text.drop_first(), bytes - byte_width(text[0]))
    }
}

/// The beginning of a text that fits into so many bytes.
pub open spec fn clipped(text: Seq<char>, bytes: int) -> Seq<char> {
    text.take(fitting(text, bytes) as int)
}

/// The label for a name: what can be printed of it, as far as it fits, or a
/// general word where nothing can be printed.
pub open spec fn label(name: Seq<char>, max_label: int) -> Seq<char> {
    if printable(name).len() == 0 {
        "UniFi camera"@
    } else {
        clipped(printable(name), max_label)
    }
}

/// The length of a text is the sum over its parts.
proof fn lemma_byte_length_adds(a: Seq<char>, b: Seq<char>)
    ensures
        byte_length(a + b) == byte_length(a) + byte_length(b),
    decreases a.len(),
{
    if a.len() == 0 {
        assert(a + b =~= b);
    } else {
        lemma_byte_length_adds(a.drop_first(), b);
        assert((a + b).drop_first() =~= a.drop_first() + b);
    }
}

/// The length of a text of one character.
proof fn lemma_byte_length_of_one(c: char)
    ensures
        byte_length(seq![c]) == byte_width(c),
{
    assert(seq![c].drop_first() =~= Seq::<char>::empty());
    reveal_with_fuel(encode_utf8, 2);
}

/// No more characters fit than there are.
proof fn lemma_fitting_bound(text: Seq<char>, bytes: int)
    ensures
        fitting(text, bytes) <= text.len(),
    decreases text.len(),
{
    if text.len() > 0 && byte_width(text[0]) <= bytes {
        lemma_fitting_bound(text.drop_first(), bytes - byte_width(text[0]));
    }
}

/// A clipped text is a beginning of the text that fits, and one character more
/// would not fit.
pub proof fn law_clipped_is_the_longest_beginning(text: Seq<char>, bytes: nat)
    ensures
        clipped(text, bytes as int).is_prefix_of(text),
        byte_length(clipped(text, bytes as int)) <= bytes,
        forall|n: int|
            clipped(text, bytes as int).len() < n <= text.len() ==> byte_length(
                #[trigger] text.take(n),
            ) > bytes,
    decreases text.len(),
{
    lemma_fitting_bound(text, bytes as int);
    let k = fitting(text, bytes as int) as int;
    let kept = clipped(text, bytes as int);
    if text.len() == 0 || byte_width(text[0]) > bytes {
        assert(kept =~= Seq::<char>::empty());
        assert forall|n: int| k < n <= text.len() implies byte_length(#[trigger] text.take(n))
            > bytes by {
            assert(text.take(n) =~= seq![text[0]] + text.take(n).drop_first());
            lemma_byte_length_adds(seq![text[0]], text.take(n).drop_first());
            lemma_byte_length_of_one(text[0]);
        }
    } else {
        let rest = text.drop_first();
        let left = (bytes - byte_width(text[0])) as nat;
        law_clipped_is_the_longest_beginning(rest, left);
        lemma_fitting_bound(rest, left as int);
        lemma_byte_length_of_one(text[0]);
        assert(kept =~= seq![text[0]] + clipped(rest, left as int));
        lemma_byte_length_adds(seq![text[0]], clipped(rest, left as int));
        assert forall|n: int| k < n <= text.len() implies byte_length(#[trigger] text.take(n))
            > bytes by {
            assert(text.take(n) =~= seq![text[0]] + rest.take(n - 1));
            lemma_byte_length_adds(seq![text[0]], rest.take(n - 1));
        }
    }
}

/// A label can be printed, and it is no longer than allowed, provided that the
/// general word is not.
pub proof fn law_labels_are_printable_and_bounded(name: Seq<char>, max_label: nat)
    ensures
        forall|i: int|
            0 <= i < label(name, max_label as int).len() ==> !is_control(
                #[trigger] label(name, max_label as int)[i],
            ),
        12 <= max_label || printable(name).len() > 0 ==> byte_length(label(name, max_label as int))
            <= max_label,
        4 <= max_label ==> label(name, max_label as int).len() > 0,
{
    let keep = |c: char| !is_control(c);
    let text = printable(name);
    law_clipped_is_the_longest_beginning(text, max_label);
    lemma_fitting_bound(text, max_label as int);
    assert forall|i: int| 0 <= i < text.len() implies !is_control(#[trigger] text[i]) by {
        name.lemma_filter_pred(keep, i);
    }
    reveal_strlit("UniFi camera");
    assert(is_ascii_chars("UniFi camera"@));
    is_ascii_chars_encode_utf8("UniFi camera"@);
}

/// The control characters are those below the space and those from `DEL` to the end of
/// the second control block.
pub proof fn law_control_characters_are_two_blocks(c: char)
    ensures
        is_control(c) <==> (c as u32) < 0x20 || 0x7f <= (c as u32) < 0xa0,
{
}

/// What can be printed of a text is every character of it that is no control
/// character, in place.
pub proof fn law_printable_drops_control_characters_only(
    before: Seq<char>,
    c: char,
    after: Seq<char>,
)
    ensures
        printable(before + seq![c] + after) == (if is_control(c) {
            printable(before) + printable(after)
        } else {
            printable(before) + seq![c] + printable(after)
        }),
        printable(Seq::empty()) == Seq::<char>::empty(),
{
    let keep = |x: char| !is_control(x);
    Seq::filter_distributes_over_add(before + seq![c], after, keep);
    Seq::filter_distributes_over_add(before, seq![c], keep);
    reveal_with_fuel(Seq::filter, 2);
    assert(seq![c].drop_last() =~= Seq::<char>::empty());
    assert(Seq::<char>::empty().push(c) =~= seq![c]);
    assert(printable(before) + Seq::<char>::empty() =~= printable(before));
}

/// A label is the longest beginning that fits of what can be printed of a name; where
/// nothing can be printed it is the general word.
pub proof fn law_label_is_the_longest_printable_beginning(name: Seq<char>, max_label: nat)
    ensures
        printable(name).len() == 0 ==> label(name, max_label as int) == "UniFi camera"@,
        printable(name).len() > 0 ==> {
            let kept = label(name, max_label as int);
            &&& kept.is_prefix_of(printable(name))
            &&& byte_length(kept) <= max_label
            &&& forall|n: int|
                kept.len() < n <= printable(name).len() ==> byte_length(
                    #[trigger] printable(name).take(n),
                ) > max_label
        },
{
    law_clipped_is_the_longest_beginning(printable(name), max_label);
}

/// A text that can be printed and fits is its own label.
pub proof fn law_short_printable_name_is_its_own_label(name: Seq<char>, max_label: nat)
    requires
        name.len() > 0,
        forall|i: int| 0 <= i < name.len() ==> !is_control(#[trigger] name[i]),
        byte_length(name) <= max_label,
    ensures
        label(name, max_label as int) == name,
{
    lemma_all_printable(name);
    law_clipped_is_the_longest_beginning(name, max_label);
    lemma_fitting_bound(name, max_label as int);
    assert(name.take(name.len() as int) =~= name);
    assert(clipped(name, max_label as int) =~= name);
}

/// A text without control characters loses none.
proof fn lemma_all_printable(text: Seq<char>)
    requires
        forall|i: int| 0 <= i < text.len() ==> !is_control(#[trigger] text[i]),
    ensures
        printable(text) == text,
    decreases text.len(),
{
    reveal(Seq::filter);
    if text.len() > 0 {
        let front = text.drop_last();
        assert forall|i: int| 0 <= i < front.len() implies !is_control(#[trigger] front[i]) by {
            assert(front[i] == text[i]);
        }
        lemma_all_printable(front);
        assert(!is_control(text[text.len() - 1]));
        assert(front.push(text.last()) =~= text);
    }
}

/// Making a label of a label changes nothing.
pub proof fn law_label_is_idempotent(name: Seq<char>, max_label: nat)
    requires
        12 <= max_label,
    ensures
        label(label(name, max_label as int), max_label as int) == label(name, max_label as int),
{
    law_labels_are_printable_and_bounded(name, max_label);
    law_short_printable_name_is_its_own_label(label(name, max_label as int), max_label);
}

/// The number of bytes of a character in UTF-8.
fn width(c: char) -> (bytes: usize)
    ensures
        bytes == byte_width(c),
        1 <= bytes <= 4,
{
    let code: u32 = c as u32;
    if code <= 0x7f {
        1
    } else if code <= 0x7ff {
        2
    } else if code <= 0xffff {
        3
    } else {
        4
    }
}

/// The characters of a text that can be printed.
fn printable_characters(text: &str) -> (kept: Vec<char>)
    ensures
        kept@ == printable(text@),
{
    let letters: Vec<char> = characters(text);
    let mut kept: Vec<char> = Vec::new();
    let mut i: usize = 0;
    assert(printable(letters@.take(0)) =~= Seq::<char>::empty()) by {
        reveal(Seq::filter);
    }
    while i < letters.len()
        invariant
            i <= letters@.len(),
            kept@ == printable(letters@.take(i as int)),
        decreases letters@.len() - i,
    {
        let c: char = letters[i];
        if !(c <= '\u{1f}' || ('\u{7f}' <= c && c <= '\u{9f}')) {
            kept.push(c);
        }
        proof {
            reveal(Seq::filter);
            assert(letters@.take(i + 1).drop_last() =~= letters@.take(i as int));
        }
        i = i + 1;
    }
    assert(letters@.take(letters@.len() as int) =~= letters@);
    kept
}

/// The label for a name, of at most `max_label` bytes.
pub fn shown(input: &str, max_label: usize) -> (text: String)
    ensures
        text@ == label(input@, max_label as int),
{
    let letters: Vec<char> = printable_characters(input);
    if letters.len() == 0 {
        return "UniFi camera".to_owned();
    }
    let mut text: String = String::new();
    let mut left: usize = max_label;
    let mut i: usize = 0;
    assert(letters@.skip(0) =~= letters@);
    while i < letters.len() && width(letters[i]) <= left
        invariant
            i <= letters@.len(),
            text@ == letters@.take(i as int),
            fitting(letters@, max_label as int) == i + fitting(
                letters@.skip(i as int),
                left as int,
            ),
        decreases letters@.len() - i,
    {
        text.push(letters[i]);
        left = left - width(letters[i]);
        assert(letters@.skip(i as int).drop_first() =~= letters@.skip(i + 1));
        assert(letters@.take(i + 1) =~= letters@.take(i as int).push(letters@[i as int]));
        i = i + 1;
    }
    assert(fitting(letters@.skip(i as int), left as int) == 0);
    text
}

/// A camera as the console describes it.
#[derive(Debug)]
pub struct Camera {
    pub id: String,
    pub name: Option<String>,
    pub model: String,
}

/// A camera as plain text.
pub struct CameraView {
    pub id: Seq<char>,
    pub name: Option<Seq<char>>,
    pub model: Seq<char>,
}

impl View for Camera {
    type V = CameraView;

    open spec fn view(&self) -> CameraView {
        CameraView { id: self.id@, name: optional_text(self.name), model: self.model@ }
    }
}

/// Cameras as plain text.
pub open spec fn plain_cameras(cameras: Seq<Camera>) -> Seq<CameraView> {
    cameras.map_values(|camera: Camera| camera@)
}

/// The name that a camera is ordered by. A camera without one comes first.
pub open spec fn order_name(camera: CameraView) -> Seq<char> {
    match camera.name {
        Some(name) => name,
        None => Seq::empty(),
    }
}

/// The order of cameras: by name, and under one name by id.
pub open spec fn camera_before(a: CameraView, b: CameraView) -> bool {
    ||| text_before(order_name(a), order_name(b))
    ||| order_name(a) == order_name(b) && text_before(a.id, b.id)
}

/// The cameras that stand at one place of the order.
pub open spec fn placed(name: Seq<char>, id: Seq<char>) -> spec_fn(CameraView) -> bool {
    |camera: CameraView| order_name(camera) == name && camera.id == id
}

/// No camera comes before one that is listed earlier.
pub open spec fn in_order(cameras: Seq<CameraView>) -> bool {
    forall|i: int, j: int|
        0 <= i < j < cameras.len() ==> !camera_before(#[trigger] cameras[j], #[trigger] cameras[i])
}

/// A listing holds the same cameras in order, and those that stand at one place
/// of the order keep the order that they came in.
pub open spec fn is_listing(cameras: Seq<CameraView>, listed: Seq<CameraView>) -> bool {
    &&& in_order(listed)
    &&& listed.to_multiset() == cameras.to_multiset()
    &&& forall|name: Seq<char>, id: Seq<char>|
        #![trigger placed(name, id)]
        listed.filter(placed(name, id)) == cameras.filter(placed(name, id))
}

/// The listing of some cameras. There is exactly one.
pub open spec fn listing(cameras: Seq<CameraView>) -> Seq<CameraView> {
    choose|listed: Seq<CameraView>| is_listing(cameras, listed)
}

/// The order of cameras has no two that each come before the other, passes on,
/// and leaves undecided only those that stand at one place.
proof fn lemma_camera_order(a: CameraView, b: CameraView, c: CameraView)
    ensures
        !camera_before(a, a),
        camera_before(a, b) && camera_before(b, c) ==> camera_before(a, c),
        camera_before(a, b) ==> !camera_before(b, a),
        camera_before(a, b) || camera_before(b, a) || order_name(a) == order_name(b) && a.id
            == b.id,
        !camera_before(a, b) && !camera_before(b, c) ==> !camera_before(a, c),
{
    let names = seq![order_name(a), order_name(b), order_name(c)];
    let ids = seq![a.id, b.id, c.id];
    assert forall|i: int, j: int| 0 <= i < 3 && 0 <= j < 3 implies {
        &&& text_before(#[trigger] names[i], #[trigger] names[j]) || text_before(names[j], names[i])
            || names[i] == names[j]
        &&& text_before(ids[i], ids[j]) || text_before(ids[j], ids[i]) || ids[i] == ids[j]
        &&& !(text_before(names[i], names[j]) && text_before(names[j], names[i]))
        &&& !(text_before(ids[i], ids[j]) && text_before(ids[j], ids[i]))
        &&& i == j ==> !text_before(names[i], names[j]) && !text_before(ids[i], ids[j])
    } by {
        lemma_text_before_total(names[i], names[j]);
        lemma_text_before_total(ids[i], ids[j]);
        lemma_text_before_irreflexive(names[i]);
        lemma_text_before_irreflexive(ids[i]);
        if text_before(names[i], names[j]) && text_before(names[j], names[i]) {
            lemma_text_before_transitive(names[i], names[j], names[i]);
        }
        if text_before(ids[i], ids[j]) && text_before(ids[j], ids[i]) {
            lemma_text_before_transitive(ids[i], ids[j], ids[i]);
        }
    }
    assert forall|i: int, j: int, k: int|
        0 <= i < 3 && 0 <= j < 3 && 0 <= k < 3 implies {
        &&& text_before(#[trigger] names[i], #[trigger] names[j]) && text_before(
            names[j],
            #[trigger] names[k],
        ) ==> text_before(names[i], names[k])
        &&& text_before(ids[i], ids[j]) && text_before(ids[j], ids[k]) ==> text_before(
            ids[i],
            ids[k],
        )
    } by {
        if text_before(names[i], names[j]) && text_before(names[j], names[k]) {
            lemma_text_before_transitive(names[i], names[j], names[k]);
        }
        if text_before(ids[i], ids[j]) && text_before(ids[j], ids[k]) {
            lemma_text_before_transitive(ids[i], ids[j], ids[k]);
        }
    }
    assert(names[0] == order_name(a) && names[1] == order_name(b) && names[2] == order_name(c));
    assert(ids[0] == a.id && ids[1] == b.id && ids[2] == c.id);
}

/// Nothing is left of a sequence that a filter rejects as a whole.
proof fn lemma_filter_of_none(s: Seq<CameraView>, pred: spec_fn(CameraView) -> bool)
    requires
        forall|i: int| 0 <= i < s.len() ==> !pred(#[trigger] s[i]),
    ensures
        s.filter(pred) == Seq::<CameraView>::empty(),
    decreases s.len(),
{
    reveal(Seq::filter);
    if s.len() > 0 {
        assert(!pred(s[s.len() - 1]));
        assert forall|i: int| 0 <= i < s.drop_last().len() implies !pred(
            #[trigger] s.drop_last()[i],
        ) by {
            assert(s.drop_last()[i] == s[i]);
        }
        lemma_filter_of_none(s.drop_last(), pred);
    } else {
        assert(s =~= Seq::<CameraView>::empty());
    }
}

/// A filter of one camera.
proof fn lemma_filter_of_one(c: CameraView, pred: spec_fn(CameraView) -> bool)
    ensures
        seq![c].filter(pred) == (if pred(c) {
            seq![c]
        } else {
            Seq::empty()
        }),
{
    reveal_with_fuel(Seq::filter, 2);
    assert(seq![c].drop_last() =~= Seq::<CameraView>::empty());
    assert(Seq::<CameraView>::empty().push(c) =~= seq![c]);
}

/// A camera put in front of the others goes to its place in their listing.
proof fn lemma_listing_grows(
    rest: Seq<CameraView>,
    listed: Seq<CameraView>,
    camera: CameraView,
    at: int,
)
    requires
        is_listing(rest, listed),
        0 <= at <= listed.len(),
        forall|i: int| 0 <= i < at ==> camera_before(#[trigger] listed[i], camera),
        at < listed.len() ==> !camera_before(listed[at], camera),
    ensures
        is_listing(seq![camera] + rest, listed.insert(at, camera)),
{
    broadcast use vstd::seq_lib::group_to_multiset_ensures;

    let grown = listed.insert(at, camera);
    let head = listed.take(at);
    let tail = listed.skip(at);
    assert(listed =~= head + tail);
    assert(grown =~= head + seq![camera] + tail);
    assert forall|j: int| at <= j < listed.len() implies !camera_before(
        #[trigger] listed[j],
        camera,
    ) by {
        if j > at {
            lemma_camera_order(listed[j], listed[at], camera);
        }
    }
    assert forall|i: int, j: int| 0 <= i < j < grown.len() implies !camera_before(
        #[trigger] grown[j],
        #[trigger] grown[i],
    ) by {
        if j == at {
            lemma_camera_order(listed[i], camera, camera);
        } else if i != at {
            let a = if i < at { i } else { i - 1 };
            let b = if j < at { j } else { j - 1 };
            assert(grown[i] == listed[a] && grown[j] == listed[b]);
        }
    }
    assert(grown.to_multiset() == listed.to_multiset().insert(camera));
    assert((seq![camera] + rest) =~= rest.insert(0, camera));
    assert((seq![camera] + rest).to_multiset() == rest.to_multiset().insert(camera));
    assert forall|name: Seq<char>, id: Seq<char>|
        #![trigger placed(name, id)]
        grown.filter(placed(name, id)) == (seq![camera] + rest).filter(placed(name, id)) by {
        let pred = placed(name, id);
        Seq::filter_distributes_over_add(head + seq![camera], tail, pred);
        Seq::filter_distributes_over_add(head, seq![camera], pred);
        Seq::filter_distributes_over_add(head, tail, pred);
        Seq::filter_distributes_over_add(seq![camera], rest, pred);
        lemma_filter_of_one(camera, pred);
        if pred(camera) {
            assert forall|i: int| 0 <= i < head.len() implies !pred(#[trigger] head[i]) by {
                assert(head[i] == listed[i]);
                lemma_camera_order(head[i], camera, camera);
                if pred(head[i]) {
                    lemma_text_before_irreflexive(name);
                    lemma_text_before_irreflexive(id);
                }
            }
            lemma_filter_of_none(head, pred);
        }
        assert(grown.filter(pred) =~= (seq![camera] + rest).filter(pred));
    }
}

/// Where the first camera of a sequence passes a filter, it comes first there.
proof fn lemma_filter_keeps_first(s: Seq<CameraView>, pred: spec_fn(CameraView) -> bool)
    requires
        s.len() > 0,
    ensures
        s.filter(pred) == (if pred(s[0]) {
            seq![s[0]] + s.drop_first().filter(pred)
        } else {
            s.drop_first().filter(pred)
        }),
{
    assert(s =~= seq![s[0]] + s.drop_first());
    Seq::filter_distributes_over_add(seq![s[0]], s.drop_first(), pred);
    lemma_filter_of_one(s[0], pred);
    let rest = s.drop_first().filter(pred);
    assert(Seq::<CameraView>::empty() + rest =~= rest);
}

/// Two listings of the same cameras are the same.
pub proof fn law_listing_is_unique(
    cameras: Seq<CameraView>,
    a: Seq<CameraView>,
    b: Seq<CameraView>,
)
    requires
        is_listing(cameras, a),
        is_listing(cameras, b),
    ensures
        a == b,
{
    assert forall|name: Seq<char>, id: Seq<char>|
        #![trigger placed(name, id)]
        a.filter(placed(name, id)) == b.filter(placed(name, id)) by {
        assert(a.filter(placed(name, id)) == cameras.filter(placed(name, id)));
    }
    lemma_same_places_same_listing(a, b);
}

/// Whether two sequences hold the same cameras at every place of the order.
spec fn same_places(a: Seq<CameraView>, b: Seq<CameraView>) -> bool {
    forall|name: Seq<char>, id: Seq<char>|
        #![trigger placed(name, id)]
        a.filter(placed(name, id)) == b.filter(placed(name, id))
}

/// What stands first in order is before nothing else that is there.
proof fn lemma_first_is_not_after(a: Seq<CameraView>, camera: CameraView)
    requires
        in_order(a),
        a.contains(camera),
    ensures
        !camera_before(camera, a[0]),
{
    let i = a.index_of(camera);
    assert(0 <= i < a.len() && a[i] == camera);
    lemma_camera_order(a[0], a[0], a[0]);
    if i > 0 {
        assert(!camera_before(a[i], a[0]));
    }
}

/// Sequences in order that hold the same cameras at every place begin with the same
/// one.
proof fn lemma_same_first(a: Seq<CameraView>, b: Seq<CameraView>)
    requires
        in_order(a),
        in_order(b),
        a.to_multiset() == b.to_multiset(),
        same_places(a, b),
        a.len() > 0,
        b.len() > 0,
    ensures
        a[0] == b[0],
{
    broadcast use vstd::seq_lib::group_to_multiset_ensures;

    assert(a.contains(a[0]) && b.contains(b[0]));
    assert(b.to_multiset().count(a[0]) > 0);
    assert(a.to_multiset().count(b[0]) > 0);
    lemma_first_is_not_after(b, a[0]);
    lemma_first_is_not_after(a, b[0]);
    lemma_camera_order(a[0], b[0], b[0]);
    let pred = placed(order_name(a[0]), a[0].id);
    assert(pred(a[0]) && pred(b[0]));
    lemma_filter_keeps_first(a, pred);
    lemma_filter_keeps_first(b, pred);
    assert(a.filter(pred)[0] == a[0]);
    assert(b.filter(pred)[0] == b[0]);
}

/// What is left of a sequence in order without its first camera is in order.
proof fn lemma_rest_in_order(a: Seq<CameraView>)
    requires
        in_order(a),
        a.len() > 0,
    ensures
        in_order(a.drop_first()),
{
    let x = a.drop_first();
    assert forall|m: int, n: int| 0 <= m < n < x.len() implies !camera_before(
        #[trigger] x[n],
        #[trigger] x[m],
    ) by {
        assert(x[n] == a[n + 1] && x[m] == a[m + 1]);
    }
}

/// What is left of a sequence without its first camera, as a multiset.
proof fn lemma_rest_multiset(a: Seq<CameraView>)
    requires
        a.len() > 0,
    ensures
        a.drop_first().to_multiset() == a.to_multiset().remove(a[0]),
{
    broadcast use vstd::seq_lib::group_to_multiset_ensures;

    let x = a.drop_first();
    assert(a =~= x.insert(0, a[0]));
    assert(a.to_multiset() == x.to_multiset().insert(a[0]));
    assert(x.to_multiset() =~= a.to_multiset().remove(a[0]));
}

/// Without the first camera, which they share, two sequences still hold the same at
/// every place.
proof fn lemma_rest_same_places(a: Seq<CameraView>, b: Seq<CameraView>)
    requires
        same_places(a, b),
        a.len() > 0,
        b.len() > 0,
        a[0] == b[0],
    ensures
        same_places(a.drop_first(), b.drop_first()),
{
    let x = a.drop_first();
    let y = b.drop_first();
    assert forall|name: Seq<char>, id: Seq<char>|
        #![trigger placed(name, id)]
        x.filter(placed(name, id)) == y.filter(placed(name, id)) by {
        let p = placed(name, id);
        lemma_filter_keeps_first(a, p);
        lemma_filter_keeps_first(b, p);
        assert(a.filter(p) == b.filter(p));
        if p(a[0]) {
            assert(x.filter(p) =~= a.filter(p).drop_first());
            assert(y.filter(p) =~= b.filter(p).drop_first());
        }
    }
}

/// Sequences in order that hold the same cameras at every place are the same.
proof fn lemma_same_places_same_listing(a: Seq<CameraView>, b: Seq<CameraView>)
    requires
        in_order(a),
        in_order(b),
        a.to_multiset() == b.to_multiset(),
        same_places(a, b),
    ensures
        a == b,
    decreases a.len(),
{
    a.to_multiset_ensures();
    b.to_multiset_ensures();
    if a.len() == 0 {
        assert(a =~= b);
    } else {
        lemma_same_first(a, b);
        lemma_rest_in_order(a);
        lemma_rest_in_order(b);
        lemma_rest_multiset(a);
        lemma_rest_multiset(b);
        lemma_rest_same_places(a, b);
        lemma_same_places_same_listing(a.drop_first(), b.drop_first());
        assert(a =~= seq![a[0]] + a.drop_first());
        assert(b =~= seq![b[0]] + b.drop_first());
    }
}

/// Every collection of cameras has a listing, so the listing is one.
pub proof fn law_listing_exists(cameras: Seq<CameraView>)
    ensures
        is_listing(cameras, listing(cameras)),
{
    lemma_some_listing(cameras);
}

/// Every collection of cameras has a listing.
proof fn lemma_some_listing(cameras: Seq<CameraView>)
    ensures
        exists|listed: Seq<CameraView>| is_listing(cameras, listed),
    decreases cameras.len(),
{
    if cameras.len() == 0 {
        assert(is_listing(cameras, cameras));
    } else {
        let rest = cameras.drop_first();
        lemma_some_listing(rest);
        let listed = choose|listed: Seq<CameraView>| is_listing(rest, listed);
        let at = place_of(listed, cameras[0]);
        lemma_place_of(listed, cameras[0]);
        lemma_listing_grows(rest, listed, cameras[0], at as int);
        assert(seq![cameras[0]] + rest =~= cameras);
        assert(is_listing(cameras, listed.insert(at as int, cameras[0])));
    }
}

/// How many cameras at the start of a sequence come before this one.
spec fn place_of(listed: Seq<CameraView>, camera: CameraView) -> nat
    decreases listed.len(),
{
    if listed.len() == 0 || !camera_before(listed[0], camera) {
        0
    } else {
        1 + place_of(listed.drop_first(), camera)
    }
}

/// Those cameras come before it, and the next one does not.
proof fn lemma_place_of(listed: Seq<CameraView>, camera: CameraView)
    ensures
        place_of(listed, camera) <= listed.len(),
        forall|i: int|
            0 <= i < place_of(listed, camera) ==> camera_before(#[trigger] listed[i], camera),
        place_of(listed, camera) < listed.len() ==> !camera_before(
            listed[place_of(listed, camera) as int],
            camera,
        ),
    decreases listed.len(),
{
    if listed.len() > 0 && camera_before(listed[0], camera) {
        let rest = listed.drop_first();
        lemma_place_of(rest, camera);
        assert forall|i: int| 0 <= i < place_of(listed, camera) implies camera_before(
            #[trigger] listed[i],
            camera,
        ) by {
            if i > 0 {
                assert(listed[i] == rest[i - 1]);
            }
        }
    }
}

/// The cameras of a listing stand in the order of their names, and under one name in
/// the order of their ids; one without a name stands where an empty name does.
pub proof fn law_listing_is_by_name_and_then_by_id(
    cameras: Seq<CameraView>,
    listed: Seq<CameraView>,
    i: int,
    j: int,
)
    requires
        is_listing(cameras, listed),
        0 <= i < j < listed.len(),
    ensures
        ({
            let first = match listed[i].name {
                Some(name) => name,
                None => Seq::empty(),
            };
            let second = match listed[j].name {
                Some(name) => name,
                None => Seq::empty(),
            };
            &&& first == second || text_before(first, second)
            &&& first == second ==> listed[i].id == listed[j].id || text_before(
                listed[i].id,
                listed[j].id,
            )
        }),
{
    lemma_camera_order(listed[i], listed[j], listed[j]);
    lemma_text_before_total(order_name(listed[i]), order_name(listed[j]));
    lemma_text_before_total(listed[i].id, listed[j].id);
}

/// How often a camera is listed is how often the console named it.
pub proof fn law_listing_repeats_nothing(
    cameras: Seq<CameraView>,
    listed: Seq<CameraView>,
    camera: CameraView,
)
    requires
        is_listing(cameras, listed),
    ensures
        listed.to_multiset().count(camera) == cameras.to_multiset().count(camera),
        listed.len() == cameras.len(),
        listed.contains(camera) <==> cameras.contains(camera),
{
    broadcast use vstd::seq_lib::group_to_multiset_ensures;

    assert(listed.len() == listed.to_multiset().len());
    assert(cameras.len() == cameras.to_multiset().len());
    assert(listed.contains(camera) <==> listed.to_multiset().count(camera) > 0);
    assert(cameras.contains(camera) <==> cameras.to_multiset().count(camera) > 0);
}

/// Two cameras under one name and one id keep the order in which the console named
/// them.
pub proof fn law_listing_keeps_the_order_of_equals(
    cameras: Seq<CameraView>,
    listed: Seq<CameraView>,
    name: Option<Seq<char>>,
    id: Seq<char>,
)
    requires
        is_listing(cameras, listed),
    ensures
        ({
            let here = |camera: CameraView|
                camera.id == id && (match camera.name {
                    Some(n) => n,
                    None => Seq::empty(),
                }) == (match name {
                    Some(n) => n,
                    None => Seq::empty(),
                });
            listed.filter(here) == cameras.filter(here)
        }),
{
    let key = match name {
        Some(n) => n,
        None => Seq::<char>::empty(),
    };
    let here = |camera: CameraView|
        camera.id == id && (match camera.name {
            Some(n) => n,
            None => Seq::empty(),
        }) == (match name {
            Some(n) => n,
            None => Seq::empty(),
        });
    assert(here =~= placed(key, id));
    assert(listed.filter(placed(key, id)) == cameras.filter(placed(key, id)));
}

/// What a camera is labelled after: its name, or else its model, or else a general
/// word.
pub open spec fn label_source(camera: CameraView) -> Seq<char> {
    match camera.name {
        Some(name) => name,
        None => if camera.model.len() == 0 {
            "UniFi camera"@
        } else {
            camera.model
        },
    }
}

/// A camera as the host lists it.
#[derive(Debug)]
pub struct Child {
    pub id: String,
    pub kind: String,
    pub label: String,
}

/// A listed camera as plain text.
pub struct ChildView {
    pub id: Seq<char>,
    pub kind: Seq<char>,
    pub label: Seq<char>,
}

impl View for Child {
    type V = ChildView;

    open spec fn view(&self) -> ChildView {
        ChildView { id: self.id@, kind: self.kind@, label: self.label@ }
    }
}

/// Listed cameras as plain text.
pub open spec fn plain_children(children: Seq<Child>) -> Seq<ChildView> {
    children.map_values(|child: Child| child@)
}

/// How the host lists a camera.
pub open spec fn child_of(camera: CameraView, max_label: int) -> ChildView {
    ChildView { id: camera.id, kind: "camera"@, label: label(label_source(camera), max_label) }
}

/// How the host lists the cameras of a console.
pub open spec fn children_of(cameras: Seq<CameraView>, max_label: int) -> Seq<ChildView> {
    listing(cameras).map_values(|camera: CameraView| child_of(camera, max_label))
}

/// The cameras lose nothing as plain text.
pub proof fn law_plain_cameras_are_the_cameras(cameras: Seq<Camera>, i: int)
    requires
        0 <= i < cameras.len(),
    ensures
        plain_cameras(cameras).len() == cameras.len(),
        plain_cameras(cameras)[i].id == cameras[i].id@,
        plain_cameras(cameras)[i].name == (match cameras[i].name {
            Some(name) => Some(name@),
            None => None,
        }),
        plain_cameras(cameras)[i].model == cameras[i].model@,
{
}

/// Every camera that the console named becomes a child, and nothing else does: as many
/// children as cameras, each of them for the camera that stands in its place of the
/// order, and under its id.
pub proof fn law_every_camera_becomes_a_child(
    cameras: Seq<CameraView>,
    max_label: int,
    i: int,
    j: int,
)
    requires
        0 <= i < cameras.len(),
        0 <= j < cameras.len(),
    ensures
        ({
            let children = children_of(cameras, max_label);
            let camera = listing(cameras)[j];
            &&& children.len() == cameras.len()
            &&& listing(cameras).len() == cameras.len()
            &&& cameras.contains(camera)
            &&& children[j].id == camera.id
            &&& children[j].kind == "camera"@
            &&& camera.name matches Some(name) ==> children[j].label == label(name, max_label)
            &&& camera.name is None && camera.model.len() > 0 ==> children[j].label == label(
                camera.model,
                max_label,
            )
            &&& camera.name is None && camera.model.len() == 0 ==> children[j].label == label(
                "UniFi camera"@,
                max_label,
            )
            &&& exists|k: int|
                0 <= k < children.len() && (#[trigger] children[k]).id == cameras[i].id
        }),
{
    law_listing_exists(cameras);
    let listed = listing(cameras);
    let children = children_of(cameras, max_label);
    law_listing_repeats_nothing(cameras, listed, cameras[i]);
    law_listing_repeats_nothing(cameras, listed, listed[j]);
    assert(cameras.contains(cameras[i]));
    assert(listed.contains(listed[j]));
    let k = listed.index_of(cameras[i]);
    assert(0 <= k < listed.len() && listed[k] == cameras[i]);
    assert(children[k].id == cameras[i].id);
}

/// Whether one of the cameras has this id.
pub open spec fn has_camera(cameras: Seq<CameraView>, id: Seq<char>) -> bool {
    exists|i: int| 0 <= i < cameras.len() && (#[trigger] cameras[i]).id == id
}

impl Camera {
    /// Whether this camera comes before another.
    fn before(&self, other: &Camera) -> (before: bool)
        ensures
            before == camera_before(self@, other@),
    {
        let mine: &str = match &self.name {
            Some(name) => name.as_str(),
            None => "",
        };
        let theirs: &str = match &other.name {
            Some(name) => name.as_str(),
            None => "",
        };
        proof {
            reveal_strlit("");
            assert(""@ =~= Seq::<char>::empty());
        }
        if comes_before(mine, theirs) {
            true
        } else {
            same_text(mine, theirs) && comes_before(self.id.as_str(), other.id.as_str())
        }
    }

    /// How the host lists this camera.
    fn child(&self, max_label: usize) -> (child: Child)
        ensures
            child@ == child_of(self@, max_label as int),
    {
        let source: &str = match &self.name {
            Some(name) => name.as_str(),
            None => if self.model.as_str().is_empty() {
                "UniFi camera"
            } else {
                self.model.as_str()
            },
        };
        Child { id: self.id.clone(), kind: "camera".to_owned(), label: shown(source, max_label) }
    }
}

/// Puts cameras in order.
pub fn sort_cameras(cameras: Vec<Camera>) -> (listed: Vec<Camera>)
    ensures
        is_listing(plain_cameras(cameras@), plain_cameras(listed@)),
        plain_cameras(listed@) == listing(plain_cameras(cameras@)),
        listed@.len() == cameras@.len(),
{
    let ghost all = plain_cameras(cameras@);
    let mut left: Vec<Camera> = cameras;
    let mut listed: Vec<Camera> = Vec::new();
    proof {
        assert(all.skip(all.len() as int) =~= Seq::<CameraView>::empty());
        assert(plain_cameras(listed@) =~= Seq::<CameraView>::empty());
        assert(is_listing(all.skip(all.len() as int), plain_cameras(listed@)));
    }
    while left.len() > 0
        invariant
            left@.len() <= all.len(),
            plain_cameras(left@) == all.take(left@.len() as int),
            is_listing(all.skip(left@.len() as int), plain_cameras(listed@)),
        decreases left@.len(),
    {
        let ghost rest = all.skip(left@.len() as int);
        let ghost so_far = plain_cameras(listed@);
        let ghost shorter = left@.drop_last();
        assert(plain_cameras(left@)[left@.len() - 1] == left@[left@.len() - 1]@);
        let last: Option<Camera> = left.pop();
        if let Some(camera) = last {
            let mut at: usize = 0;
            while at < listed.len() && listed[at].before(&camera)
                invariant
                    at <= listed@.len(),
                    so_far == plain_cameras(listed@),
                    forall|i: int| 0 <= i < at ==> camera_before(#[trigger] so_far[i], camera@),
                decreases listed@.len() - at,
            {
                at = at + 1;
            }
            proof {
                lemma_listing_grows(rest, so_far, camera@, at as int);
                assert(left@ == shorter);
                assert(all.skip(left@.len() as int) =~= seq![camera@] + rest);
            }
            listed.insert(at, camera);
            assert(plain_cameras(listed@) =~= so_far.insert(at as int, camera@));
        }
        assert(plain_cameras(left@) =~= all.take(left@.len() as int));
    }
    proof {
        assert(all.skip(0) =~= all);
        law_listing_is_unique(all, plain_cameras(listed@), listing(all));
        all.to_multiset_ensures();
        plain_cameras(listed@).to_multiset_ensures();
    }
    listed
}

/// Whether a child stands for a camera: under its id, as a camera, and labelled after
/// its name, or else its model, or else a general word.
pub open spec fn stands_for(child: Child, camera: Camera, max_label: int) -> bool {
    &&& child.id@ == camera.id@
    &&& child.kind@ == "camera"@
    &&& child.label@ == label(
        match camera.name {
            Some(name) => name@,
            None => if camera.model@.len() == 0 {
                "UniFi camera"@
            } else {
                camera.model@
            },
        },
        max_label,
    )
}

/// Whether one of some children stands for a camera.
pub open spec fn is_listed(camera: Camera, children: Seq<Child>, max_label: int) -> bool {
    exists|j: int| 0 <= j < children.len() && stands_for(#[trigger] children[j], camera, max_label)
}

/// Whether a child stands for one of some cameras.
pub open spec fn is_named(child: Child, cameras: Seq<Camera>, max_label: int) -> bool {
    exists|i: int| 0 <= i < cameras.len() && stands_for(child, #[trigger] cameras[i], max_label)
}

/// Whether every camera has a child that stands for it, and every child a camera.
pub open spec fn lists_all(cameras: Seq<Camera>, children: Seq<Child>, max_label: int) -> bool {
    &&& forall|i: int|
        0 <= i < cameras.len() ==> is_listed(#[trigger] cameras[i], children, max_label)
    &&& forall|j: int|
        0 <= j < children.len() ==> is_named(#[trigger] children[j], cameras, max_label)
}

/// Children that are those of the cameras as plain text list all of them.
proof fn lemma_lists_all(cameras: Seq<Camera>, children: Seq<Child>, max_label: int)
    requires
        plain_children(children) == children_of(plain_cameras(cameras), max_label),
    ensures
        children.len() == cameras.len(),
        lists_all(cameras, children, max_label),
{
    let plain = plain_cameras(cameras);
    let listed = listing(plain);
    law_listing_exists(plain);
    law_listing_repeats_nothing(plain, listed, arbitrary());
    assert(plain_children(children).len() == children.len());
    assert forall|i: int| 0 <= i < cameras.len() implies is_listed(
        #[trigger] cameras[i],
        children,
        max_label,
    ) by {
        law_listing_repeats_nothing(plain, listed, plain[i]);
        assert(plain.contains(plain[i]));
        let j = listed.index_of(plain[i]);
        assert(listed[j] == cameras[i]@);
        assert(plain_children(children)[j] == children[j]@);
        assert(stands_for(children[j], cameras[i], max_label));
    }
    assert forall|j: int| 0 <= j < children.len() implies is_named(
        #[trigger] children[j],
        cameras,
        max_label,
    ) by {
        law_listing_repeats_nothing(plain, listed, listed[j]);
        assert(listed.contains(listed[j]));
        let i = plain.index_of(listed[j]);
        assert(listed[j] == cameras[i]@);
        assert(plain_children(children)[j] == children[j]@);
        assert(stands_for(children[j], cameras[i], max_label));
    }
}

/// Lists the cameras of a console for the host.
pub fn list_children(cameras: Vec<Camera>, max_label: usize) -> (children: Vec<Child>)
    ensures
        plain_children(children@) == children_of(plain_cameras(cameras@), max_label as int),
        children@.len() == cameras@.len(),
        lists_all(cameras@, children@, max_label as int),
{
    let listed: Vec<Camera> = sort_cameras(cameras);
    let ghost wanted = children_of(plain_cameras(cameras@), max_label as int);
    let mut children: Vec<Child> = Vec::new();
    let mut i: usize = 0;
    while i < listed.len()
        invariant
            i <= listed@.len(),
            wanted.len() == listed@.len(),
            forall|j: int|
                0 <= j < listed@.len() ==> #[trigger] wanted[j] == child_of(
                    listed@[j]@,
                    max_label as int,
                ),
            plain_children(children@) == wanted.take(i as int),
        decreases listed@.len() - i,
    {
        let ghost before = children@;
        let child: Child = listed[i].child(max_label);
        let ghost seen = child@;
        children.push(child);
        assert(plain_children(children@) =~= plain_children(before).push(seen));
        assert(wanted.take(i + 1) =~= wanted.take(i as int).push(wanted[i as int]));
        assert(plain_children(children@) =~= wanted.take(i + 1));
        i = i + 1;
    }
    assert(wanted.take(wanted.len() as int) =~= wanted);
    proof {
        lemma_lists_all(cameras@, children@, max_label as int);
    }
    children
}

/// Whether a camera is one of the console's. One that is not is rejected.
pub fn camera_status(cameras: &Vec<Camera>, resource: &str) -> (status: Result<(), HostError>)
    ensures
        plain_verdict(status) == (if has_camera(plain_cameras(cameras@), resource@) {
            Ok::<(), _>(())
        } else {
            Err(bare(HostErrorKind::Rejected))
        }),
        forall|i: int|
            0 <= i < cameras@.len() && (#[trigger] cameras@[i]).id@ == resource@ ==> status is Ok,
        status is Ok ==> exists|i: int|
            0 <= i < cameras@.len() && (#[trigger] cameras@[i]).id@ == resource@,
        status matches Err(error) ==> error.kind == HostErrorKind::Rejected && error.reason is None,
{
    let ghost plain = plain_cameras(cameras@);
    let mut i: usize = 0;
    while i < cameras.len()
        invariant
            i <= cameras@.len(),
            plain == plain_cameras(cameras@),
            forall|j: int| 0 <= j < i ==> (#[trigger] plain[j]).id != resource@,
            forall|j: int| 0 <= j < i ==> (#[trigger] cameras@[j]).id@ != resource@,
        decreases cameras@.len() - i,
    {
        if same_text(cameras[i].id.as_str(), resource) {
            assert(plain[i as int].id == resource@);
            return Ok(());
        }
        i = i + 1;
    }
    Err(HostError::bare(HostErrorKind::Rejected))
}

/// Every camera that the console names is one of its cameras, whatever its id is, and
/// an id that none of them has is none of theirs.
pub proof fn law_every_named_camera_is_there(cameras: Seq<CameraView>, i: int, id: Seq<char>)
    requires
        0 <= i < cameras.len(),
    ensures
        has_camera(cameras, cameras[i].id),
        (forall|j: int| 0 <= j < cameras.len() ==> (#[trigger] cameras[j]).id != id)
            <==> !has_camera(cameras, id),
        !has_camera(Seq::empty(), id),
{
}

/// Every camera is listed exactly once, and a camera is listed under an id exactly
/// if the console has it.
pub proof fn law_listing_holds_every_camera(
    cameras: Seq<CameraView>,
    listed: Seq<CameraView>,
    id: Seq<char>,
)
    requires
        is_listing(cameras, listed),
    ensures
        listed.len() == cameras.len(),
        has_camera(listed, id) <==> has_camera(cameras, id),
{
    broadcast use vstd::seq_lib::group_to_multiset_ensures;

    assert(listed.len() == listed.to_multiset().len());
    assert(cameras.len() == cameras.to_multiset().len());
    if has_camera(listed, id) {
        let i = choose|i: int| 0 <= i < listed.len() && (#[trigger] listed[i]).id == id;
        assert(listed.contains(listed[i]));
        assert(cameras.to_multiset().count(listed[i]) > 0);
        assert(cameras.contains(listed[i]));
        let j = choose|j: int| 0 <= j < cameras.len() && cameras[j] == listed[i];
        assert(cameras[j].id == id);
    }
    if has_camera(cameras, id) {
        let i = choose|i: int| 0 <= i < cameras.len() && (#[trigger] cameras[i]).id == id;
        assert(cameras.contains(cameras[i]));
        assert(listed.to_multiset().count(cameras[i]) > 0);
        assert(listed.contains(cameras[i]));
        let j = choose|j: int| 0 <= j < listed.len() && listed[j] == cameras[i];
        assert(listed[j].id == id);
    }
}

/// What a filter keeps of a sequence is what it keeps of its multiset.
proof fn lemma_filter_multiset(s: Seq<CameraView>, pred: spec_fn(CameraView) -> bool)
    ensures
        s.filter(pred).to_multiset() == s.to_multiset().filter(pred),
    decreases s.len(),
{
    broadcast use vstd::seq_lib::group_to_multiset_ensures;

    reveal(Seq::filter);
    if s.len() == 0 {
        assert(s.filter(pred).to_multiset() =~= s.to_multiset().filter(pred));
    } else {
        lemma_filter_multiset(s.drop_last(), pred);
        assert(s =~= s.drop_last().push(s.last()));
        assert(s.to_multiset() == s.drop_last().to_multiset().insert(s.last()));
        assert(s.filter(pred).to_multiset() =~= s.to_multiset().filter(pred));
    }
}

/// Where no two cameras share a place of the order, at most one stands at each.
proof fn lemma_at_most_one_placed(s: Seq<CameraView>, name: Seq<char>, id: Seq<char>)
    requires
        forall|i: int, j: int|
            0 <= i < s.len() && 0 <= j < s.len() && order_name(#[trigger] s[i]) == order_name(
                #[trigger] s[j],
            ) && s[i].id == s[j].id ==> i == j,
    ensures
        s.filter(placed(name, id)).len() <= 1,
    decreases s.len(),
{
    let pred = placed(name, id);
    reveal(Seq::filter);
    if s.len() > 0 {
        let front = s.drop_last();
        lemma_at_most_one_placed(front, name, id);
        if pred(s.last()) {
            assert forall|i: int| 0 <= i < front.len() implies !pred(#[trigger] front[i]) by {
                assert(front[i] == s[i]);
                assert(s[s.len() - 1] == s.last());
            }
            lemma_filter_of_none(front, pred);
        }
    }
}

/// The listing does not depend on the order in which the console names cameras
/// that differ in name or id.
pub proof fn law_listing_ignores_arrival(
    a: Seq<CameraView>,
    b: Seq<CameraView>,
    listed: Seq<CameraView>,
)
    requires
        is_listing(a, listed),
        a.to_multiset() == b.to_multiset(),
        forall|i: int, j: int|
            0 <= i < a.len() && 0 <= j < a.len() && order_name(#[trigger] a[i]) == order_name(
                #[trigger] a[j],
            ) && a[i].id == a[j].id ==> i == j,
    ensures
        is_listing(b, listed),
{
    broadcast use vstd::seq_lib::group_to_multiset_ensures;

    assert forall|name: Seq<char>, id: Seq<char>|
        #![trigger placed(name, id)]
        listed.filter(placed(name, id)) == b.filter(placed(name, id)) by {
        let pred = placed(name, id);
        lemma_filter_multiset(a, pred);
        lemma_filter_multiset(b, pred);
        lemma_at_most_one_placed(a, name, id);
        let x = a.filter(pred);
        let y = b.filter(pred);
        assert(x.len() == x.to_multiset().len() && y.len() == y.to_multiset().len());
        if x.len() == 1 {
            assert(x.contains(x[0]));
            assert(y.to_multiset().count(x[0]) > 0);
            assert(y.contains(x[0]));
        }
        assert(x =~= y);
        assert(listed.filter(pred) == x);
    }
}

} // verus!
