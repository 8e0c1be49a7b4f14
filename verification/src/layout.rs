//! The line-layout model of the message viewport: every rendered line
//! is a deterministic function of the message sequence, the viewport
//! width and the underline character.  The model walks messages oldest
//! to newest carrying a context (position, previous timestamp, previous
//! sender, attachments seen so far); the executable renderer is proved
//! to produce exactly the model's lines.

use vstd::prelude::*;
use vstd::string::StringExecFns;
use crate::models::{
    Attachment, AttachmentModel, LineModel, Message, MessageLine, MessageLineType, MessageModel,
    MessageType, blank_line_model,
};
use crate::text::{
    chars_to_string, dec_digits, dec_spec, push_chars, repeat_char, repeat_spec, spaces,
    spaces_spec, str_to_chars,
};
use crate::utilities::{date_pad_spec, date_pad_string};
use crate::wrap::{line_views, max_line_len, wrap_spec, wrap_text, longest_line};

verus! {

/// Two messages at least this far apart get a time header between them
/// (the platform's native unit: nanoseconds, one hour).
pub const TIME_GAP_NANOS: i64 = 3600000000000;

/// The ghost models of a sequence of messages.
pub open spec fn msg_models(s: Seq<Message>) -> Seq<MessageModel> {
    Seq::new(s.len(), |i: int| s[i]@)
}

/// The ghost models of a sequence of rendered lines.
pub open spec fn line_models(s: Seq<MessageLine>) -> Seq<LineModel> {
    Seq::new(s.len(), |i: int| s[i]@)
}

/// The character sequences of a sequence of strings.
pub open spec fn string_views(s: Seq<String>) -> Seq<Seq<char>> {
    Seq::new(s.len(), |i: int| s[i]@)
}

pub proof fn lemma_line_models_push(s: Seq<MessageLine>, x: MessageLine)
    ensures
        line_models(s.push(x)) =~= line_models(s) + seq![x@],
{
}

pub proof fn lemma_string_views_push(s: Seq<String>, x: String)
    ensures
        string_views(s.push(x)) =~= string_views(s) + seq![x@],
{
}

/// What the layout carries from one message to the next.
#[verifier::ext_equal]
pub ghost struct LayoutCtx {
    /// Position of the next message in the sequence.
    pub idx: int,
    /// Timestamp of the previous real message (0 before the first).
    pub last_date: int,
    /// Sender of the immediately preceding real message, empty if it
    /// had none (or before the first).
    pub last_sender: Seq<char>,
    /// Attachments seen so far, for cumulative numbering.
    pub att_count: int,
}

pub open spec fn initial_ctx() -> LayoutCtx {
    LayoutCtx { idx: 0, last_date: 0, last_sender: Seq::empty(), att_count: 0 }
}

pub open spec fn sender_or_empty(m: MessageModel) -> Seq<char> {
    match m.sender {
        Some(s) => s,
        None => Seq::empty(),
    }
}

pub open spec fn is_synthetic(m: MessageModel) -> bool {
    m.message_type is Typing || m.message_type is Idle
}

pub open spec fn ctx_next(m: MessageModel, ctx: LayoutCtx) -> LayoutCtx {
    if is_synthetic(m) {
        LayoutCtx { idx: ctx.idx + 1, ..ctx }
    } else {
        LayoutCtx {
            idx: ctx.idx + 1,
            last_date: m.date,
            last_sender: sender_or_empty(m),
            att_count: ctx.att_count + m.attachments.len(),
        }
    }
}

pub open spec fn max2(a: int, b: int) -> int {
    if a >= b {
        a
    } else {
        b
    }
}

pub open spec fn clamp_sub(a: int, b: int) -> int {
    if a >= b {
        a - b
    } else {
        0
    }
}

/// The wrap column for a viewport of `width` columns: six tenths of
/// the content width (the content loses two border columns).
pub open spec fn wrap_cols(width: int) -> int {
    3 * (width - 2) / 5
}

pub open spec fn typing_line_model(idx: int) -> LineModel {
    LineModel {
        text: "Typing..."@,
        message_type: MessageLineType::Typing,
        relative_index: idx,
        from_me: false,
    }
}

pub open spec fn time_line_model(m: MessageModel, idx: int, msg_w: int) -> LineModel {
    LineModel {
        text: date_pad_spec(m.date, msg_w),
        message_type: MessageLineType::TimeDisplay,
        relative_index: idx,
        from_me: m.is_from_me,
    }
}

pub open spec fn sender_line_model(m: MessageModel, idx: int) -> LineModel {
    LineModel {
        text: sender_or_empty(m),
        message_type: MessageLineType::Sender,
        relative_index: idx,
        from_me: m.is_from_me,
    }
}

/// `Attachment <n>: <mime>`, numbered by attachments seen so far.
pub open spec fn attachment_label_spec(n: int, mime: Seq<char>) -> Seq<char> {
    "Attachment "@ + dec_spec(n as nat) + ": "@ + mime
}

/// Own messages are pushed to the right edge of the content area.
pub open spec fn right_align(s: Seq<char>, from_me: bool, msg_w: int) -> Seq<char> {
    if from_me {
        spaces_spec(clamp_sub(msg_w, s.len() as int) as nat) + s
    } else {
        s
    }
}

/// One line per attachment, each right-aligned on its own.
pub open spec fn att_lines(
    atts: Seq<AttachmentModel>,
    n: int,
    idx: int,
    from_me: bool,
    msg_w: int,
) -> Seq<LineModel>
    decreases atts.len(),
{
    if atts.len() == 0 {
        Seq::empty()
    } else {
        seq![
            LineModel {
                text: right_align(attachment_label_spec(n, atts[0].mime_type), from_me, msg_w),
                message_type: MessageLineType::Text,
                relative_index: idx,
                from_me,
            },
        ] + att_lines(atts.drop_first(), n + 1, idx, from_me, msg_w)
    }
}

/// Length of the longest attachment label.
pub open spec fn att_max(atts: Seq<AttachmentModel>, n: int) -> int
    decreases atts.len(),
{
    if atts.len() == 0 {
        0
    } else {
        max2(attachment_label_spec(n, atts[0].mime_type).len() as int, att_max(atts.drop_first(), n + 1))
    }
}

/// The wrapped body lines, all shifted right by the same padding for
/// own messages.
pub open spec fn text_line_models(lines: Seq<Seq<char>>, pad: int, idx: int, from_me: bool) -> Seq<
    LineModel,
>
    decreases lines.len(),
{
    if lines.len() == 0 {
        Seq::empty()
    } else {
        seq![
            LineModel {
                text: if from_me {
                    spaces_spec(pad as nat) + lines[0]
                } else {
                    lines[0]
                },
                message_type: MessageLineType::Text,
                relative_index: idx,
                from_me,
            },
        ] + text_line_models(lines.drop_first(), pad, idx, from_me)
    }
}

/// The underline closing a message: as long as the longest line the
/// message emitted, aligned with the message's lines.
pub open spec fn underline_model(maxw: int, pad: int, idx: int, from_me: bool, uch: char) -> LineModel {
    LineModel {
        text: (if from_me {
            spaces_spec(pad as nat)
        } else {
            Seq::empty()
        }) + repeat_spec(uch, maxw as nat),
        message_type: MessageLineType::Underline,
        relative_index: idx,
        from_me,
    }
}

/// All lines a single message contributes, given the context.
pub open spec fn message_lines(m: MessageModel, ctx: LayoutCtx, width: int, uch: char) -> Seq<
    LineModel,
>
{
    if m.message_type is Typing {
        seq![typing_line_model(ctx.idx)]
    } else if m.message_type is Idle {
        Seq::empty()
    } else {
        let msg_w = width - 2;
        let gap = m.date - ctx.last_date >= TIME_GAP_NANOS as int;
        let header = if gap {
            seq![
                blank_line_model(ctx.idx),
                time_line_model(m, ctx.idx, msg_w),
                blank_line_model(ctx.idx),
            ]
        } else {
            Seq::empty()
        };
        let shows_sender = m.sender is Some && (gap || sender_or_empty(m) != ctx.last_sender);
        let sender_block = if shows_sender {
            if gap {
                seq![sender_line_model(m, ctx.idx)]
            } else {
                seq![blank_line_model(ctx.idx), sender_line_model(m, ctx.idx)]
            }
        } else {
            Seq::empty()
        };
        let wrapped = wrap_spec(m.text, wrap_cols(width));
        let maxw = max2(max_line_len(wrapped), att_max(m.attachments, ctx.att_count));
        let pad = clamp_sub(msg_w, maxw);
        let body = if m.text.len() == 0 {
            Seq::empty()
        } else {
            text_line_models(wrapped, pad, ctx.idx, m.is_from_me)
        };
        header + sender_block + att_lines(m.attachments, ctx.att_count, ctx.idx, m.is_from_me, msg_w)
            + body + seq![underline_model(maxw, pad, ctx.idx, m.is_from_me, uch)]
    }
}

/// The remote paths of a message's attachments.
pub open spec fn att_paths(atts: Seq<AttachmentModel>) -> Seq<Seq<char>>
    decreases atts.len(),
{
    if atts.len() == 0 {
        Seq::empty()
    } else {
        seq![atts[0].path] + att_paths(atts.drop_first())
    }
}

pub proof fn lemma_att_paths_len(atts: Seq<AttachmentModel>)
    ensures
        att_paths(atts).len() == atts.len(),
    decreases atts.len(),
{
    if atts.len() > 0 {
        lemma_att_paths_len(atts.drop_first());
    }
}

/// Paths contributed by one message: none for synthetic entries.
pub open spec fn msg_att_paths(m: MessageModel) -> Seq<Seq<char>> {
    if is_synthetic(m) {
        Seq::empty()
    } else {
        att_paths(m.attachments)
    }
}

pub open spec fn layout_rec(msgs: Seq<MessageModel>, ctx: LayoutCtx, width: int, uch: char) -> Seq<
    LineModel,
>
    decreases msgs.len(),
{
    if msgs.len() == 0 {
        Seq::empty()
    } else {
        message_lines(msgs[0], ctx, width, uch) + layout_rec(
            msgs.drop_first(),
            ctx_next(msgs[0], ctx),
            width,
            uch,
        )
    }
}

pub open spec fn ctx_after(msgs: Seq<MessageModel>, ctx: LayoutCtx) -> LayoutCtx
    decreases msgs.len(),
{
    if msgs.len() == 0 {
        ctx
    } else {
        ctx_after(msgs.drop_first(), ctx_next(msgs[0], ctx))
    }
}

/// The full rendered line sequence for a message sequence: the one the
/// viewport must always be able to rebuild wholesale.
pub open spec fn layout_spec(msgs: Seq<MessageModel>, width: int, uch: char) -> Seq<LineModel> {
    layout_rec(msgs, initial_ctx(), width, uch)
}

/// All attachment paths of a message sequence, in layout order.
pub open spec fn all_att_paths(msgs: Seq<MessageModel>) -> Seq<Seq<char>>
    decreases msgs.len(),
{
    if msgs.len() == 0 {
        Seq::empty()
    } else {
        msg_att_paths(msgs[0]) + all_att_paths(msgs.drop_first())
    }
}

/// Appending one message extends the layout by exactly that message's
/// lines, rendered in the context the earlier messages left behind.
pub proof fn lemma_layout_push(
    msgs: Seq<MessageModel>,
    m: MessageModel,
    ctx: LayoutCtx,
    width: int,
    uch: char,
)
    ensures
        layout_rec(msgs.push(m), ctx, width, uch) == layout_rec(msgs, ctx, width, uch)
            + message_lines(m, ctx_after(msgs, ctx), width, uch),
    decreases msgs.len(),
{
    if msgs.len() == 0 {
        assert(msgs.push(m)[0] == m);
        assert(msgs.push(m).drop_first() =~= Seq::<MessageModel>::empty());
        assert(layout_rec(Seq::<MessageModel>::empty(), ctx_next(m, ctx), width, uch) =~= Seq::<
            LineModel,
        >::empty());
        assert(layout_rec(msgs.push(m), ctx, width, uch) =~= layout_rec(msgs, ctx, width, uch)
            + message_lines(m, ctx_after(msgs, ctx), width, uch));
    } else {
        assert(msgs.push(m)[0] == msgs[0]);
        assert(msgs.push(m).drop_first() =~= msgs.drop_first().push(m));
        lemma_layout_push(msgs.drop_first(), m, ctx_next(msgs[0], ctx), width, uch);
        assert(layout_rec(msgs.push(m), ctx, width, uch) =~= layout_rec(msgs, ctx, width, uch)
            + message_lines(m, ctx_after(msgs, ctx), width, uch));
    }
}

pub proof fn lemma_ctx_after_push(msgs: Seq<MessageModel>, m: MessageModel, ctx: LayoutCtx)
    ensures
        ctx_after(msgs.push(m), ctx) == ctx_next(m, ctx_after(msgs, ctx)),
    decreases msgs.len(),
{
    if msgs.len() == 0 {
        assert(msgs.push(m)[0] == m);
        assert(msgs.push(m).drop_first() =~= Seq::<MessageModel>::empty());
        assert(ctx_after(Seq::<MessageModel>::empty(), ctx_next(m, ctx)) == ctx_next(m, ctx));
    } else {
        assert(msgs.push(m)[0] == msgs[0]);
        assert(msgs.push(m).drop_first() =~= msgs.drop_first().push(m));
        lemma_ctx_after_push(msgs.drop_first(), m, ctx_next(msgs[0], ctx));
    }
}

pub proof fn lemma_all_att_paths_push(msgs: Seq<MessageModel>, m: MessageModel)
    ensures
        all_att_paths(msgs.push(m)) == all_att_paths(msgs) + msg_att_paths(m),
    decreases msgs.len(),
{
    if msgs.len() == 0 {
        assert(msgs.push(m)[0] == m);
        assert(msgs.push(m).drop_first() =~= Seq::<MessageModel>::empty());
        assert(all_att_paths(Seq::<MessageModel>::empty()) =~= Seq::<Seq<char>>::empty());
        assert(all_att_paths(msgs.push(m)) =~= all_att_paths(msgs) + msg_att_paths(m));
    } else {
        assert(msgs.push(m)[0] == msgs[0]);
        assert(msgs.push(m).drop_first() =~= msgs.drop_first().push(m));
        lemma_all_att_paths_push(msgs.drop_first(), m);
        assert(all_att_paths(msgs.push(m)) =~= all_att_paths(msgs) + msg_att_paths(m));
    }
}

/// Holds when every message in the sequence is a real one (no
/// synthetic typing or idle entries).
pub open spec fn all_normal(msgs: Seq<MessageModel>) -> bool {
    forall|i: int| 0 <= i < msgs.len() ==> (#[trigger] msgs[i].message_type) is Normal
}

/// Timestamp of the newest message, 0 for an empty sequence.
pub open spec fn last_date_of(msgs: Seq<MessageModel>) -> int {
    if msgs.len() == 0 {
        0
    } else {
        msgs.last().date
    }
}

/// Sender of the newest message, empty for an empty sequence.
pub open spec fn last_sender_of(msgs: Seq<MessageModel>) -> Seq<char> {
    if msgs.len() == 0 {
        Seq::empty()
    } else {
        sender_or_empty(msgs.last())
    }
}

pub proof fn lemma_ctx_after_idx(msgs: Seq<MessageModel>, ctx: LayoutCtx)
    ensures
        ctx_after(msgs, ctx).idx == ctx.idx + msgs.len(),
        ctx_after(msgs, ctx).att_count >= ctx.att_count,
    decreases msgs.len(),
{
    if msgs.len() > 0 {
        lemma_ctx_after_idx(msgs.drop_first(), ctx_next(msgs[0], ctx));
    }
}

/// Over a sequence of real messages, the layout context ends holding
/// exactly the newest message's timestamp and sender.
pub proof fn lemma_ctx_after_normal(msgs: Seq<MessageModel>)
    requires
        all_normal(msgs),
    ensures
        ctx_after(msgs, initial_ctx()).idx == msgs.len(),
        ctx_after(msgs, initial_ctx()).last_date == last_date_of(msgs),
        ctx_after(msgs, initial_ctx()).last_sender == last_sender_of(msgs),
    decreases msgs.len(),
{
    if msgs.len() == 0 {
    } else {
        let front = msgs.drop_last();
        assert(all_normal(front));
        lemma_ctx_after_normal(front);
        assert(msgs =~= front.push(msgs.last()));
        lemma_ctx_after_push(front, msgs.last(), initial_ctx());
    }
}

/// The attachments counted over a prefix never exceed those counted
/// over the whole sequence.
pub proof fn lemma_att_count_prefix(msgs: Seq<MessageModel>, i: int)
    requires
        0 <= i <= msgs.len(),
    ensures
        ctx_after(msgs.subrange(0, i), initial_ctx()).att_count <= ctx_after(
            msgs,
            initial_ctx(),
        ).att_count,
    decreases msgs.len() - i,
{
    if i == msgs.len() {
        assert(msgs.subrange(0, i) =~= msgs);
    } else {
        assert(msgs.subrange(0, i + 1) =~= msgs.subrange(0, i).push(msgs[i]));
        lemma_ctx_after_push(msgs.subrange(0, i), msgs[i], initial_ctx());
        lemma_att_count_prefix(msgs, i + 1);
    }
}

pub proof fn lemma_msg_models_push(s: Seq<Message>, x: Message)
    ensures
        msg_models(s.push(x)) =~= msg_models(s).push(x@),
{
}

pub proof fn lemma_line_models_remove(s: Seq<MessageLine>, i: int)
    requires
        0 <= i < s.len(),
    ensures
        line_models(s.remove(i)) =~= line_models(s).remove(i),
{
}

/// The layout is a function of the messages, the width and the
/// underline character alone: recomputing it for an unchanged message
/// sequence and width yields identical output.
pub proof fn lemma_layout_idempotent(
    first: Seq<LineModel>,
    second: Seq<LineModel>,
    msgs: Seq<MessageModel>,
    width: int,
    uch: char,
)
    requires
        first == layout_spec(msgs, width, uch),
        second == layout_spec(msgs, width, uch),
    ensures
        first == second,
{
}

/// Incremental/full equivalence: appending one message and rendering
/// just that message, in the context the loaded messages left behind,
/// yields the same line sequence as recomputing the full layout from
/// scratch at the same width.
pub proof fn lemma_incremental_extension(
    msgs: Seq<MessageModel>,
    m: MessageModel,
    width: int,
    uch: char,
)
    requires
        all_normal(msgs),
    ensures
        layout_spec(msgs.push(m), width, uch) == layout_spec(msgs, width, uch) + message_lines(
            m,
            LayoutCtx {
                idx: msgs.len() as int,
                last_date: last_date_of(msgs),
                last_sender: last_sender_of(msgs),
                att_count: ctx_after(msgs, initial_ctx()).att_count,
            },
            width,
            uch,
        ),
{
    lemma_layout_push(msgs, m, initial_ctx(), width, uch);
    lemma_ctx_after_normal(msgs);
    assert(ctx_after(msgs, initial_ctx()) =~= LayoutCtx {
        idx: msgs.len() as int,
        last_date: last_date_of(msgs),
        last_sender: last_sender_of(msgs),
        att_count: ctx_after(msgs, initial_ctx()).att_count,
    });
}

/// Typing ephemerality: a typing event adds exactly one ephemeral
/// line to the layout, and the following idle event removes exactly
/// that line and its synthetic message, leaving all other lines
/// unchanged.
pub proof fn lemma_typing_ephemeral(msgs: Seq<MessageModel>, chat: Seq<char>, width: int, uch: char)
    ensures
        layout_spec(msgs.push(crate::models::typing_message_model(chat)), width, uch)
            == layout_spec(msgs, width, uch).push(typing_line_model(msgs.len() as int)),
        layout_spec(msgs.push(crate::models::typing_message_model(chat)), width, uch).drop_last()
            == layout_spec(msgs, width, uch),
        msgs.push(crate::models::typing_message_model(chat)).drop_last() == msgs,
{
    let t = crate::models::typing_message_model(chat);
    lemma_layout_push(msgs, t, initial_ctx(), width, uch);
    lemma_ctx_after_idx(msgs, initial_ctx());
    assert(message_lines(t, ctx_after(msgs, initial_ctx()), width, uch) =~= seq![
        typing_line_model(msgs.len() as int),
    ]);
    assert(layout_spec(msgs.push(t), width, uch) =~= layout_spec(msgs, width, uch).push(
        typing_line_model(msgs.len() as int),
    ));
    assert(layout_spec(msgs.push(t), width, uch).drop_last() =~= layout_spec(msgs, width, uch));
    assert(msgs.push(t).drop_last() =~= msgs);
}

fn max_usize(a: usize, b: usize) -> (r: usize)
    ensures
        r as int == max2(a as int, b as int),
{
    if a >= b {
        a
    } else {
        b
    }
}

/// The label of attachment number `n` with the given mime type.
fn attachment_label(n: usize, mime: &String) -> (r: Vec<char>)
    ensures
        r@ == attachment_label_spec(n as int, mime@),
{
    let mut r = str_to_chars("Attachment ");
    let digits = dec_digits(n);
    push_chars(&mut r, &digits);
    let sep = str_to_chars(": ");
    push_chars(&mut r, &sep);
    let mime_chars = str_to_chars(mime.as_str());
    push_chars(&mut r, &mime_chars);
    r
}

fn att_max_exec(atts: &Vec<Attachment>, j: usize, n: usize) -> (r: usize)
    requires
        j <= atts@.len(),
        n + (atts@.len() - j) <= usize::MAX,
    ensures
        r as int == att_max(atts.deep_view().subrange(j as int, atts@.len() as int), n as int),
    decreases atts@.len() - j,
{
    let ghost s = atts.deep_view().subrange(j as int, atts@.len() as int);
    if j == atts.len() {
        0
    } else {
        proof {
            assert(s[0] == atts@[j as int]@);
            assert(s.drop_first() =~= atts.deep_view().subrange(j + 1, atts@.len() as int));
        }
        let label = attachment_label(n, &atts[j].mime_type);
        let rest = att_max_exec(atts, j + 1, n + 1);
        max_usize(label.len(), rest)
    }
}

/// Renders the attachment lines of one message and records the paths.
fn render_atts(
    out: &mut Vec<MessageLine>,
    paths: &mut Vec<String>,
    atts: &Vec<Attachment>,
    j: usize,
    idx: usize,
    from_me: bool,
    msg_w: usize,
)
    requires
        j <= atts@.len(),
        old(paths)@.len() + (atts@.len() - j) <= usize::MAX,
    ensures
        line_models(final(out)@) == line_models(old(out)@) + att_lines(
            atts.deep_view().subrange(j as int, atts@.len() as int),
            old(paths)@.len() as int,
            idx as int,
            from_me,
            msg_w as int,
        ),
        string_views(final(paths)@) == string_views(old(paths)@) + att_paths(
            atts.deep_view().subrange(j as int, atts@.len() as int),
        ),
    decreases atts@.len() - j,
{
    let ghost s = atts.deep_view().subrange(j as int, atts@.len() as int);
    if j == atts.len() {
        proof {
            assert(line_models(out@) =~= line_models(out@) + att_lines(
                s,
                paths@.len() as int,
                idx as int,
                from_me,
                msg_w as int,
            ));
            assert(string_views(paths@) =~= string_views(paths@) + att_paths(s));
        }
    } else {
        proof {
            assert(s[0] == atts@[j as int]@);
            assert(s.drop_first() =~= atts.deep_view().subrange(j + 1, atts@.len() as int));
        }
        let n = paths.len();
        let label = attachment_label(n, &atts[j].mime_type);
        let text = if from_me {
            let pad: usize = if msg_w >= label.len() {
                msg_w - label.len()
            } else {
                0
            };
            let mut padded = spaces(pad);
            push_chars(&mut padded, &label);
            padded
        } else {
            label
        };
        proof {
            assert(text@ =~= right_align(attachment_label_spec(n as int, s[0].mime_type), from_me, msg_w as int));
        }
        let line = MessageLine::new(chars_to_string(&text), MessageLineType::Text, idx, from_me);
        let ghost out_before = out@;
        let ghost paths_before = paths@;
        out.push(line);
        paths.push(atts[j].path.clone());
        proof {
            lemma_line_models_push(out_before, line);
            lemma_string_views_push(paths_before, atts@[j as int].path);
        }
        render_atts(out, paths, atts, j + 1, idx, from_me, msg_w);
        proof {
            assert(line_models(out@) =~= line_models(old(out)@) + att_lines(
                s,
                old(paths)@.len() as int,
                idx as int,
                from_me,
                msg_w as int,
            ));
            assert(string_views(paths@) =~= string_views(old(paths)@) + att_paths(s));
        }
    }
}

/// Renders the wrapped body lines of one message.
fn render_texts(
    out: &mut Vec<MessageLine>,
    lines: &Vec<Vec<char>>,
    j: usize,
    pad: usize,
    idx: usize,
    from_me: bool,
)
    requires
        j <= lines@.len(),
    ensures
        line_models(final(out)@) == line_models(old(out)@) + text_line_models(
            line_views(lines@).subrange(j as int, lines@.len() as int),
            pad as int,
            idx as int,
            from_me,
        ),
    decreases lines@.len() - j,
{
    let ghost s = line_views(lines@).subrange(j as int, lines@.len() as int);
    if j == lines.len() {
        proof {
            assert(line_models(out@) =~= line_models(out@) + text_line_models(
                s,
                pad as int,
                idx as int,
                from_me,
            ));
        }
    } else {
        proof {
            assert(s[0] == lines@[j as int]@);
            assert(s.drop_first() =~= line_views(lines@).subrange(j + 1, lines@.len() as int));
        }
        let text = if from_me {
            let mut padded = spaces(pad);
            push_chars(&mut padded, &lines[j]);
            padded
        } else {
            let mut copy: Vec<char> = Vec::new();
            push_chars(&mut copy, &lines[j]);
            proof {
                assert(copy@ =~= lines@[j as int]@);
            }
            copy
        };
        let line = MessageLine::new(chars_to_string(&text), MessageLineType::Text, idx, from_me);
        let ghost out_before = out@;
        out.push(line);
        proof {
            lemma_line_models_push(out_before, line);
        }
        render_texts(out, lines, j + 1, pad, idx, from_me);
        proof {
            assert(line_models(out@) =~= line_models(old(out)@) + text_line_models(
                s,
                pad as int,
                idx as int,
                from_me,
            ));
        }
    }
}

/// Renders every line one message contributes, in the given context,
/// and records its attachment paths; the lines are exactly what the
/// layout model assigns to this message.
#[verifier::rlimit(100)]
#[verifier::spinoff_prover]
pub fn render_message(
    out: &mut Vec<MessageLine>,
    paths: &mut Vec<String>,
    m: &Message,
    idx: usize,
    last_date: i64,
    last_sender: &String,
    width: usize,
    uch: char,
)
    requires
        3 <= width <= 65535,
        m@.message_type is Normal ==> old(paths)@.len() + m.attachments@.len() <= usize::MAX,
    ensures
        line_models(final(out)@) == line_models(old(out)@) + message_lines(
            m@,
            LayoutCtx {
                idx: idx as int,
                last_date: last_date as int,
                last_sender: last_sender@,
                att_count: old(paths)@.len() as int,
            },
            width as int,
            uch,
        ),
        string_views(final(paths)@) == string_views(old(paths)@) + msg_att_paths(m@),
    decreases 0int,
{
    let ghost ctx = LayoutCtx {
        idx: idx as int,
        last_date: last_date as int,
        last_sender: last_sender@,
        att_count: paths@.len() as int,
    };
    let ghost out0 = out@;
    let ghost paths0 = paths@;
    match m.message_type {
        MessageType::Typing => {
            let line = MessageLine::new(
                String::from_str("Typing..."),
                MessageLineType::Typing,
                idx,
                false,
            );
            out.push(line);
            proof {
                lemma_line_models_push(out0, line);
                assert(line_models(out@) =~= line_models(out0) + message_lines(
                    m@,
                    ctx,
                    width as int,
                    uch,
                ));
                assert(string_views(paths@) =~= string_views(paths0) + msg_att_paths(m@));
            }
        },
        MessageType::Idle => {
            proof {
                assert(line_models(out@) =~= line_models(out0) + message_lines(
                    m@,
                    ctx,
                    width as int,
                    uch,
                ));
                assert(string_views(paths@) =~= string_views(paths0) + msg_att_paths(m@));
            }
        },
        MessageType::Normal => {
            let msg_w = width - 2;
            let gap = (m.date as i128) - (last_date as i128) >= TIME_GAP_NANOS as i128;
            if gap {
                let b1 = MessageLine::blank(idx);
                let ghost o = out@;
                out.push(b1);
                proof {
                    lemma_line_models_push(o, b1);
                }
                let tl = MessageLine::new(
                    date_pad_string(m.date, msg_w),
                    MessageLineType::TimeDisplay,
                    idx,
                    m.is_from_me,
                );
                let ghost o2 = out@;
                out.push(tl);
                proof {
                    lemma_line_models_push(o2, tl);
                }
                let b2 = MessageLine::blank(idx);
                let ghost o3 = out@;
                out.push(b2);
                proof {
                    lemma_line_models_push(o3, b2);
                }
            }
            let ghost header = if m@.date - ctx.last_date >= TIME_GAP_NANOS as int {
                seq![
                    blank_line_model(ctx.idx),
                    time_line_model(m@, ctx.idx, msg_w as int),
                    blank_line_model(ctx.idx),
                ]
            } else {
                Seq::<LineModel>::empty()
            };
            proof {
                assert(line_models(out@) =~= line_models(out0) + header);
            }

            // the sender line, when it must be shown
            if let Some(send) = &m.sender {
                let differs = !(*send == *last_sender);
                if gap || differs {
                    if !gap {
                        let b = MessageLine::blank(idx);
                        let ghost o = out@;
                        out.push(b);
                        proof {
                            lemma_line_models_push(o, b);
                        }
                    }
                    let sl = MessageLine::new(
                        send.clone(),
                        MessageLineType::Sender,
                        idx,
                        m.is_from_me,
                    );
                    let ghost o = out@;
                    out.push(sl);
                    proof {
                        lemma_line_models_push(o, sl);
                    }
                }
            }
            let ghost shows_sender = m@.sender is Some && (m@.date - ctx.last_date
                >= TIME_GAP_NANOS as int || sender_or_empty(m@) != ctx.last_sender);
            let ghost sender_block = if shows_sender {
                if m@.date - ctx.last_date >= TIME_GAP_NANOS as int {
                    seq![sender_line_model(m@, ctx.idx)]
                } else {
                    seq![blank_line_model(ctx.idx), sender_line_model(m@, ctx.idx)]
                }
            } else {
                Seq::<LineModel>::empty()
            };
            proof {
                assert(line_models(out@) =~= line_models(out0) + header + sender_block);
            }

            // wrap the body and find the longest emitted line
            let body_chars = str_to_chars(m.text.as_str());
            let cols = 3 * (width - 2) / 5;
            let wrapped = wrap_text(&body_chars, cols);
            let tmax = longest_line(&wrapped);
            let amax = att_max_exec(&m.attachments, 0, paths.len());
            proof {
                assert(m.attachments.deep_view().subrange(0, m.attachments@.len() as int)
                    =~= m.attachments.deep_view());
                assert(m@.attachments =~= m.attachments.deep_view());
            }
            let maxw = max_usize(tmax, amax);
            proof {
                crate::wrap::lemma_max_line_len_nonneg(line_views(wrapped@));
            }
            let pad: usize = if msg_w >= maxw {
                msg_w - maxw
            } else {
                0
            };

            // attachment lines, then body lines
            render_atts(out, paths, &m.attachments, 0, idx, m.is_from_me, msg_w);
            proof {
                assert(line_models(out@) =~= line_models(out0) + header + sender_block + att_lines(
                    m@.attachments,
                    ctx.att_count,
                    ctx.idx,
                    m@.is_from_me,
                    msg_w as int,
                ));
                assert(string_views(paths@) =~= string_views(paths0) + msg_att_paths(m@));
            }
            if !m.text.as_str().is_empty() {
                render_texts(out, &wrapped, 0, pad, idx, m.is_from_me);
                proof {
                    assert(line_views(wrapped@).subrange(0, wrapped@.len() as int) =~= line_views(
                        wrapped@,
                    ));
                }
            }
            let ghost body = if m@.text.len() == 0 {
                Seq::<LineModel>::empty()
            } else {
                text_line_models(wrap_spec(m@.text, wrap_cols(width as int)), pad as int, ctx.idx, m@.is_from_me)
            };
            proof {
                assert(line_models(out@) =~= line_models(out0) + header + sender_block + att_lines(
                    m@.attachments,
                    ctx.att_count,
                    ctx.idx,
                    m@.is_from_me,
                    msg_w as int,
                ) + body);
            }

            // the closing underline
            let mut ul_chars = if m.is_from_me {
                spaces(pad)
            } else {
                Vec::new()
            };
            let bar = repeat_char(uch, maxw);
            push_chars(&mut ul_chars, &bar);
            let ul = MessageLine::new(
                chars_to_string(&ul_chars),
                MessageLineType::Underline,
                idx,
                m.is_from_me,
            );
            let ghost o = out@;
            out.push(ul);
            proof {
                lemma_line_models_push(o, ul);
                assert(ul@.text =~= underline_model(
                    maxw as int,
                    pad as int,
                    ctx.idx,
                    m@.is_from_me,
                    uch,
                ).text);
                assert(line_models(out@) =~= line_models(out0) + message_lines(
                    m@,
                    ctx,
                    width as int,
                    uch,
                ));
            }
        },
    }
}

} // verus!
