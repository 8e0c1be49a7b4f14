//! The message viewport: the rendered line buffer for the open
//! conversation, the scroll window over it, the selection, the
//! ephemeral typing indicator, and the single-in-flight fetch state
//! for paginating older messages.

use vstd::prelude::*;
use vstd::string::StringExecFns;
use crate::layout::{
    all_normal, all_att_paths, att_paths, ctx_after, ctx_next, initial_ctx, last_date_of,
    last_sender_of, layout_spec, lemma_all_att_paths_push, lemma_att_count_prefix,
    lemma_ctx_after_push, lemma_layout_push, lemma_line_models_remove, lemma_msg_models_push,
    line_models, message_lines, msg_models, render_message, string_views, typing_line_model,
    LayoutCtx,
};
use crate::models::{AwaitState, LineModel, Message, MessageLine, MessageLineType, MessageType};

verus! {

pub open spec fn min2(a: int, b: int) -> int {
    if a <= b {
        a
    } else {
        b
    }
}

/// `n + 1`, capped at the largest index value.
pub open spec fn sat_inc(n: int) -> int {
    if n < usize::MAX {
        n + 1
    } else {
        n
    }
}

/// Least index at or after `i` of a line belonging to a message newer
/// than `sel`.
pub open spec fn first_after(lines: Seq<LineModel>, sel: int, i: int) -> Option<int>
    decreases lines.len() - i,
{
    if i < 0 || i >= lines.len() {
        None
    } else if lines[i].relative_index > sel {
        Some(i)
    } else {
        first_after(lines, sel, i + 1)
    }
}

/// Least index at or after `i` of a line belonging to message `sel`.
pub open spec fn first_eq(lines: Seq<LineModel>, sel: int, i: int) -> Option<int>
    decreases lines.len() - i,
{
    if i < 0 || i >= lines.len() {
        None
    } else if lines[i].relative_index == sel {
        Some(i)
    } else {
        first_eq(lines, sel, i + 1)
    }
}

/// New selection after scrolling `d` messages toward newer ones.
pub open spec fn down_sel(sel: int, d: int, msgs_len: int) -> int {
    min2(sel + d, msgs_len - 1)
}

/// New selection after scrolling `d` messages toward older ones.
pub open spec fn up_sel(sel: int, d: int) -> int {
    if sel >= d {
        sel - d
    } else {
        0
    }
}

/// The scroll window after moving toward newer messages: the bottom is
/// pulled down to just past the selected message's lines, keeping the
/// window height.
pub open spec fn window_down(lines_len: int, pos: Option<int>, y0: int, y1: int) -> (int, int) {
    match pos {
        Some(p) => if y1 < p + 1 {
            (y0 + (p + 1 - y1), p + 1)
        } else {
            (y0, y1)
        },
        None => {
            let s = sat_inc(lines_len);
            if y1 <= s {
                (y0 + (s - y1), s)
            } else {
                (if y0 <= s {
                    y0
                } else {
                    s
                }, s)
            }
        },
    }
}

/// The window pulled back inside a line sequence of `lines_len` rows
/// (the bottom may sit one past the end).
pub open spec fn clamp_window_spec(y0: int, y1: int, lines_len: int) -> (int, int) {
    let b1 = min2(y1, sat_inc(lines_len));
    (min2(y0, b1), b1)
}

/// The scroll window after moving toward older messages: the top is
/// pulled up to the selected message's first line.
pub open spec fn window_up(pos: Option<int>, y0: int, y1: int) -> (int, int) {
    match pos {
        Some(p) => if y0 > p {
            (p, y1 - (y0 - p))
        } else {
            (y0, y1)
        },
        None => (y0, y1),
    }
}

proof fn lemma_first_after_bounds(lines: Seq<LineModel>, sel: int, i: int)
    requires
        0 <= i <= lines.len(),
    ensures
        first_after(lines, sel, i) matches Some(p) ==> i <= p < lines.len(),
    decreases lines.len() - i,
{
    if i < lines.len() && !(lines[i].relative_index > sel) {
        lemma_first_after_bounds(lines, sel, i + 1);
    }
}

fn find_first_after(lines: &Vec<MessageLine>, sel: usize) -> (r: Option<usize>)
    ensures
        match r {
            Some(p) => first_after(line_models(lines@), sel as int, 0) == Some(p as int) && p
                < lines@.len(),
            None => first_after(line_models(lines@), sel as int, 0) is None,
        },
{
    let mut i: usize = 0;
    while i < lines.len()
        invariant
            0 <= i <= lines@.len(),
            first_after(line_models(lines@), sel as int, 0) == first_after(
                line_models(lines@),
                sel as int,
                i as int,
            ),
        decreases lines@.len() - i,
    {
        proof {
            assert(line_models(lines@)[i as int] == lines@[i as int]@);
        }
        if lines[i].relative_index > sel {
            return Some(i);
        }
        i = i + 1;
    }
    None
}

fn find_first_eq(lines: &Vec<MessageLine>, sel: usize) -> (r: Option<usize>)
    ensures
        match r {
            Some(p) => first_eq(line_models(lines@), sel as int, 0) == Some(p as int) && p
                < lines@.len(),
            None => first_eq(line_models(lines@), sel as int, 0) is None,
        },
{
    let mut i: usize = 0;
    while i < lines.len()
        invariant
            0 <= i <= lines@.len(),
            first_eq(line_models(lines@), sel as int, 0) == first_eq(
                line_models(lines@),
                sel as int,
                i as int,
            ),
        decreases lines@.len() - i,
    {
        proof {
            assert(line_models(lines@)[i as int] == lines@[i as int]@);
        }
        if lines[i].relative_index == sel {
            return Some(i);
        }
        i = i + 1;
    }
    None
}

pub struct MessagesView {
    /// Index of the selected message in `messages`.
    pub selected_msg: usize,
    /// The loaded messages, oldest first.
    pub messages: Vec<Message>,
    /// The rendered lines, rebuilt wholesale on width change and
    /// extended incrementally on a single new message.
    pub line_list: Vec<MessageLine>,
    /// Remote paths of every attachment seen, in layout order.
    pub attachments: Vec<String>,
    pub last_width: usize,
    pub last_height: usize,
    /// Scroll window over `line_list`: (top, bottom).
    pub y_bounds: (usize, usize),
    /// Index in `line_list` of the ephemeral typing line, if shown.
    pub typing_idx: Option<usize>,
    /// Fetch state for this view: at most one fetch in flight.
    pub await_state: AwaitState,
    /// The character repeated to underline each message.
    pub underline_char: char,
}

impl MessagesView {
    pub open spec fn wf(&self) -> bool {
        &&& self.y_bounds.0 <= self.y_bounds.1
        &&& self.y_bounds.1 <= self.line_list@.len() + 1
        &&& match self.typing_idx {
            Some(i) => {
                &&& (i as int) < self.line_list@.len()
                &&& self.line_list@[i as int]@.message_type is Typing
                &&& self.messages@.len() > 0
                &&& self.messages@[self.messages@.len() - 1]@.message_type is Typing
                &&& all_normal(msg_models(self.messages@).drop_last())
            },
            None => all_normal(msg_models(self.messages@)),
        }
    }

    pub fn new() -> (r: MessagesView)
        ensures
            r.wf(),
            r.selected_msg == 0,
            r.messages@.len() == 0,
            r.line_list@.len() == 0,
            r.attachments@.len() == 0,
            r.last_width == 0,
            r.last_height == 0,
            r.y_bounds == (0usize, 0usize),
            r.typing_idx is None,
            r.await_state is Not,
    {
        MessagesView {
            selected_msg: 0,
            messages: Vec::new(),
            line_list: Vec::new(),
            attachments: Vec::new(),
            last_width: 0,
            last_height: 0,
            y_bounds: (0, 0),
            typing_idx: None,
            await_state: AwaitState::Not,
            underline_char: '▔',
        }
    }

    /// Asks to fetch messages older than those loaded.  While any
    /// fetch is already in flight for this view the request is refused
    /// and nothing changes: bursts of pagination triggers collapse to
    /// one call.  Returns the offset to fetch at.
    pub fn request_older(&mut self) -> (r: Option<usize>)
        ensures
            final(self).selected_msg == old(self).selected_msg,
            final(self).messages@ == old(self).messages@,
            final(self).line_list@ == old(self).line_list@,
            final(self).attachments@ == old(self).attachments@,
            final(self).last_width == old(self).last_width,
            final(self).last_height == old(self).last_height,
            final(self).y_bounds == old(self).y_bounds,
            final(self).typing_idx == old(self).typing_idx,
            final(self).underline_char == old(self).underline_char,
            old(self).await_state is Not ==> final(self).await_state is More && r == Some(
                old(self).messages.len(),
            ),
            !(old(self).await_state is Not) ==> *final(self) == *old(self) && r is None,
    {
        if self.await_state == AwaitState::Not {
            self.await_state = AwaitState::More;
            Some(self.messages.len())
        } else {
            None
        }
    }

    /// Asks to replace this view's messages (a full load).  Refused,
    /// with nothing changed, while any fetch is in flight.
    pub fn request_replace(&mut self) -> (r: bool)
        ensures
            final(self).selected_msg == old(self).selected_msg,
            final(self).messages@ == old(self).messages@,
            final(self).line_list@ == old(self).line_list@,
            final(self).attachments@ == old(self).attachments@,
            final(self).last_width == old(self).last_width,
            final(self).last_height == old(self).last_height,
            final(self).y_bounds == old(self).y_bounds,
            final(self).typing_idx == old(self).typing_idx,
            final(self).underline_char == old(self).underline_char,
            old(self).await_state is Not ==> final(self).await_state is Replace && r,
            !(old(self).await_state is Not) ==> *final(self) == *old(self) && !r,
    {
        if self.await_state == AwaitState::Not {
            self.await_state = AwaitState::Replace;
            true
        } else {
            false
        }
    }

    /// Moves the selection and shifts the scroll window after it; when
    /// the selection reaches the oldest loaded message, asks (at most
    /// once) to paginate older messages, returning the fetch offset.
    pub fn scroll(&mut self, up: bool, distance: usize) -> (r: Option<usize>)
        requires
            old(self).wf(),
        ensures
            final(self).wf(),
            final(self).messages@ == old(self).messages@,
            final(self).line_list@ == old(self).line_list@,
            final(self).attachments@ == old(self).attachments@,
            final(self).typing_idx == old(self).typing_idx,
            final(self).last_width == old(self).last_width,
            final(self).last_height == old(self).last_height,
            final(self).underline_char == old(self).underline_char,
            old(self).messages@.len() == 0 ==> *final(self) == *old(self) && r is None,
            old(self).messages@.len() > 0 && !up ==> {
                &&& final(self).selected_msg as int == down_sel(
                    old(self).selected_msg as int,
                    distance as int,
                    old(self).messages@.len() as int,
                )
                &&& ({
                    let y = window_down(
                        old(self).line_list@.len() as int,
                        first_after(
                            line_models(old(self).line_list@),
                            final(self).selected_msg as int,
                            0,
                        ),
                        old(self).y_bounds.0 as int,
                        old(self).y_bounds.1 as int,
                    );
                    final(self).y_bounds.0 as int == y.0 && final(self).y_bounds.1 as int == y.1
                })
                &&& final(self).await_state == old(self).await_state
                &&& r is None
            },
            old(self).messages@.len() > 0 && up ==> {
                &&& final(self).selected_msg as int == up_sel(
                    old(self).selected_msg as int,
                    distance as int,
                )
                &&& ({
                    let y = window_up(
                        first_eq(
                            line_models(old(self).line_list@),
                            final(self).selected_msg as int,
                            0,
                        ),
                        old(self).y_bounds.0 as int,
                        old(self).y_bounds.1 as int,
                    );
                    final(self).y_bounds.0 as int == y.0 && final(self).y_bounds.1 as int == y.1
                })
                &&& (final(self).selected_msg == 0 && old(self).await_state is Not
                    ==> final(self).await_state is More && r == Some(old(self).messages.len()))
                &&& (final(self).selected_msg == 0 && !(old(self).await_state is Not)
                    ==> final(self).await_state == old(self).await_state && r is None)
                &&& (final(self).selected_msg != 0
                    ==> final(self).await_state == old(self).await_state && r is None)
            },
    {
        if self.messages.len() == 0 {
            return None;
        }
        if !up {
            let cap = self.messages.len() - 1;
            let sel = if self.selected_msg > cap {
                cap
            } else if cap - self.selected_msg < distance {
                cap
            } else {
                self.selected_msg + distance
            };
            self.selected_msg = sel;
            let nlines = self.line_list.len();
            match find_first_after(&self.line_list, sel) {
                Some(p) => {
                    proof {
                        lemma_first_after_bounds(line_models(self.line_list@), sel as int, 0);
                        assert(p < nlines);
                    }
                    let s = p + 1;
                    if self.y_bounds.1 < s {
                        self.y_bounds = (self.y_bounds.0 + (s - self.y_bounds.1), s);
                    }
                },
                None => {
                    let s = if nlines < usize::MAX {
                        nlines + 1
                    } else {
                        nlines
                    };
                    if self.y_bounds.1 <= s {
                        self.y_bounds = (self.y_bounds.0 + (s - self.y_bounds.1), s);
                    } else {
                        let t = if self.y_bounds.0 <= s {
                            self.y_bounds.0
                        } else {
                            s
                        };
                        self.y_bounds = (t, s);
                    }
                },
            }
            None
        } else {
            let sel = if self.selected_msg >= distance {
                self.selected_msg - distance
            } else {
                0
            };
            self.selected_msg = sel;
            if let Some(p) = find_first_eq(&self.line_list, sel) {
                if self.y_bounds.0 > p {
                    self.y_bounds = (p, self.y_bounds.1 - (self.y_bounds.0 - p));
                }
            }
            if sel == 0 {
                self.request_older()
            } else {
                None
            }
        }
    }

    /// Pulls the scroll window back inside the rendered line sequence
    /// after it shrank.
    fn clamp_window(&mut self)
        requires
            old(self).y_bounds.0 <= old(self).y_bounds.1,
        ensures
            final(self).y_bounds.1 as int == min2(
                old(self).y_bounds.1 as int,
                sat_inc(old(self).line_list@.len() as int),
            ),
            final(self).y_bounds.0 as int == min2(
                old(self).y_bounds.0 as int,
                final(self).y_bounds.1 as int,
            ),
            final(self).y_bounds.0 <= final(self).y_bounds.1,
            final(self).y_bounds.1 <= final(self).line_list@.len() + 1,
            final(self).selected_msg == old(self).selected_msg,
            final(self).messages@ == old(self).messages@,
            final(self).line_list@ == old(self).line_list@,
            final(self).attachments@ == old(self).attachments@,
            final(self).typing_idx == old(self).typing_idx,
            final(self).await_state == old(self).await_state,
            final(self).last_width == old(self).last_width,
            final(self).last_height == old(self).last_height,
            final(self).underline_char == old(self).underline_char,
    {
        let n = self.line_list.len();
        let cap = if n < usize::MAX {
            n + 1
        } else {
            n
        };
        if self.y_bounds.1 > cap {
            self.y_bounds.1 = cap;
        }
        if self.y_bounds.0 > self.y_bounds.1 {
            self.y_bounds.0 = self.y_bounds.1;
        }
    }

    /// Shows the ephemeral typing indicator: appends exactly one
    /// `Typing` line and the synthetic message behind it, selects it,
    /// and scrolls to it.  A second typing event while one indicator
    /// is showing changes nothing.
    pub fn set_typing(&mut self, text: Message)
        requires
            old(self).wf(),
            text@.message_type is Typing,
        ensures
            final(self).wf(),
            old(self).typing_idx is Some ==> *final(self) == *old(self),
            old(self).typing_idx is None ==> {
                &&& final(self).messages@ == old(self).messages@.push(text)
                &&& line_models(final(self).line_list@) == line_models(old(self).line_list@)
                    + seq![typing_line_model(old(self).messages@.len() as int)]
                &&& final(self).typing_idx == Some(old(self).line_list.len())
                &&& final(self).selected_msg as int == final(self).messages@.len() - 1
                &&& final(self).attachments@ == old(self).attachments@
                &&& final(self).await_state == old(self).await_state
                &&& final(self).last_width == old(self).last_width
                &&& final(self).last_height == old(self).last_height
                &&& final(self).underline_char == old(self).underline_char
            },
    {
        if self.typing_idx.is_none() {
            let ri = self.messages.len();
            let model = MessageLine::new(
                String::from_str("Typing..."),
                MessageLineType::Typing,
                ri,
                false,
            );
            let ghost lines0 = self.line_list@;
            let ghost msgs0 = self.messages@;
            self.line_list.push(model);
            self.typing_idx = Some(self.line_list.len() - 1);
            self.messages.push(text);
            self.selected_msg = self.messages.len() - 1;
            proof {
                crate::layout::lemma_line_models_push(lines0, model);
                lemma_msg_models_push(msgs0, text);
                assert(msg_models(self.messages@).drop_last() =~= msg_models(msgs0));
                assert(line_models(self.line_list@) =~= line_models(lines0) + seq![
                    typing_line_model(msgs0.len() as int),
                ]);
            }
            self.scroll(false, 0);
        }
    }

    /// Removes the ephemeral typing indicator, if shown: exactly the
    /// typing line and its synthetic message go away, every other
    /// line is left unchanged.
    pub fn set_idle(&mut self)
        requires
            old(self).wf(),
        ensures
            final(self).wf(),
            old(self).typing_idx is None ==> *final(self) == *old(self),
            old(self).typing_idx matches Some(ti) ==> {
                &&& final(self).messages@ == old(self).messages@.drop_last()
                &&& line_models(final(self).line_list@) == line_models(
                    old(self).line_list@,
                ).remove(ti as int)
                &&& final(self).typing_idx is None
                &&& final(self).attachments@ == old(self).attachments@
                &&& final(self).await_state == old(self).await_state
                &&& final(self).last_width == old(self).last_width
                &&& final(self).last_height == old(self).last_height
                &&& final(self).underline_char == old(self).underline_char
            },
    {
        if let Some(id) = self.typing_idx {
            let ghost lines0 = self.line_list@;
            let ghost msgs0 = self.messages@;
            self.messages.pop();
            self.line_list.remove(id);
            self.typing_idx = None;
            proof {
                lemma_line_models_remove(lines0, id as int);
                assert(self.messages@ =~= msgs0.drop_last());
                assert(msg_models(self.messages@) =~= msg_models(msgs0).drop_last());
            }
            self.clamp_window();
            self.scroll(false, 0);
        }
    }

    /// Rebuilds the rendered line list wholesale from the current
    /// messages: afterwards it is exactly the layout model's output
    /// for this width, and the attachment list holds every attachment
    /// path in layout order.
    pub fn rerender_list(&mut self, width: usize, height: usize)
        requires
            old(self).wf(),
            3 <= width <= 65535,
            ctx_after(msg_models(old(self).messages@), initial_ctx()).att_count <= usize::MAX,
        ensures
            final(self).wf(),
            final(self).messages@ == old(self).messages@,
            line_models(final(self).line_list@) == layout_spec(
                msg_models(old(self).messages@),
                width as int,
                old(self).underline_char,
            ),
            string_views(final(self).attachments@) == all_att_paths(
                msg_models(old(self).messages@),
            ),
            final(self).last_width == width,
            final(self).last_height == height,
            final(self).underline_char == old(self).underline_char,
            final(self).await_state == old(self).await_state,
            (final(self).typing_idx is Some) <==> (old(self).messages@.len() > 0 && old(
                self,
            ).messages@[old(self).messages@.len() - 1]@.message_type is Typing),
            final(self).typing_idx matches Some(t) ==> t as int == final(self).line_list@.len()
                - 1,
            old(self).messages@.len() > 0 ==> final(self).selected_msg as int == min2(
                old(self).selected_msg as int,
                old(self).messages@.len() - 1,
            ),
            old(self).messages@.len() == 0 ==> final(self).selected_msg == old(self).selected_msg,
            ({
                let lines = layout_spec(
                    msg_models(old(self).messages@),
                    width as int,
                    old(self).underline_char,
                );
                let l = lines.len() as int;
                let y_set: (int, int) = if height >= 1 && l >= height as int {
                    (l - height, l - 1)
                } else {
                    (old(self).y_bounds.0 as int, old(self).y_bounds.1 as int)
                };
                let y_cl = clamp_window_spec(y_set.0, y_set.1, l);
                let y_fin: (int, int) = if old(self).messages@.len() == 0 {
                    y_cl
                } else {
                    window_down(
                        l,
                        first_after(lines, final(self).selected_msg as int, 0),
                        y_cl.0,
                        y_cl.1,
                    )
                };
                final(self).y_bounds.0 as int == y_fin.0 && final(self).y_bounds.1 as int
                    == y_fin.1
            }),
    {
        let ghost uch = self.underline_char;
        let mut lines: Vec<MessageLine> = Vec::new();
        let mut paths: Vec<String> = Vec::new();
        let mut cur_date: i64 = 0;
        let mut cur_sender: String = String::new();
        let mut new_typing: Option<usize> = None;
        let mut i: usize = 0;
        while i < self.messages.len()
            invariant
                i <= self.messages@.len(),
                3 <= width <= 65535,
                uch == self.underline_char,
                ctx_after(msg_models(self.messages@), initial_ctx()).att_count <= usize::MAX,
                line_models(lines@) == crate::layout::layout_rec(
                    msg_models(self.messages@).subrange(0, i as int),
                    initial_ctx(),
                    width as int,
                    uch,
                ),
                string_views(paths@) == all_att_paths(
                    msg_models(self.messages@).subrange(0, i as int),
                ),
                paths@.len() == ctx_after(
                    msg_models(self.messages@).subrange(0, i as int),
                    initial_ctx(),
                ).att_count,
                cur_date as int == ctx_after(
                    msg_models(self.messages@).subrange(0, i as int),
                    initial_ctx(),
                ).last_date,
                cur_sender@ == ctx_after(
                    msg_models(self.messages@).subrange(0, i as int),
                    initial_ctx(),
                ).last_sender,
                ctx_after(
                    msg_models(self.messages@).subrange(0, i as int),
                    initial_ctx(),
                ).idx == i as int,
                match new_typing {
                    Some(t) => i > 0 && msg_models(self.messages@)[i - 1].message_type is Typing
                        && lines@.len() > 0 && t as int == lines@.len() - 1 && lines@[t as int]@
                        .message_type is Typing,
                    None => i == 0 || !(msg_models(self.messages@)[i - 1].message_type is Typing),
                },
            decreases self.messages@.len() - i,
        {
            let ghost models = msg_models(self.messages@);
            let ghost prefix = models.subrange(0, i as int);
            proof {
                assert(models[i as int] == self.messages@[i as int]@);
                assert(models.subrange(0, i + 1) =~= prefix.push(models[i as int]));
                lemma_ctx_after_push(prefix, models[i as int], initial_ctx());
                lemma_att_count_prefix(models, i + 1);
            }
            let m = &self.messages[i];
            render_message(
                &mut lines,
                &mut paths,
                m,
                i,
                cur_date,
                &cur_sender,
                width,
                self.underline_char,
            );
            proof {
                let ctx_here = LayoutCtx {
                    idx: i as int,
                    last_date: cur_date as int,
                    last_sender: cur_sender@,
                    att_count: ctx_after(prefix, initial_ctx()).att_count,
                };
                assert(ctx_here =~= ctx_after(prefix, initial_ctx()));
                lemma_layout_push(prefix, models[i as int], initial_ctx(), width as int, uch);
                lemma_all_att_paths_push(prefix, models[i as int]);
                crate::layout::lemma_att_paths_len(models[i as int].attachments);
                assert(line_models(lines@) =~= crate::layout::layout_rec(
                    models.subrange(0, i + 1),
                    initial_ctx(),
                    width as int,
                    uch,
                ));
                assert(string_views(paths@) =~= all_att_paths(models.subrange(0, i + 1)));
            }
            match m.message_type {
                MessageType::Normal => {
                    cur_date = m.date;
                    cur_sender = match &m.sender {
                        Some(s) => s.clone(),
                        None => String::new(),
                    };
                    new_typing = None;
                },
                MessageType::Typing => {
                    proof {
                        assert(message_lines(
                            models[i as int],
                            ctx_after(prefix, initial_ctx()),
                            width as int,
                            uch,
                        ) =~= seq![typing_line_model(i as int)]);
                        assert(lines@.len() > 0);
                        assert(line_models(lines@)[lines@.len() - 1] == typing_line_model(
                            i as int,
                        ));
                    }
                    new_typing = Some(lines.len() - 1);
                },
                MessageType::Idle => {
                    new_typing = None;
                },
            }
            proof {
                assert(paths@.len() == all_att_paths(models.subrange(0, i + 1)).len());
                assert(ctx_after(models.subrange(0, i + 1), initial_ctx()).att_count == ctx_next(
                    models[i as int],
                    ctx_after(prefix, initial_ctx()),
                ).att_count);
                assert(paths@.len() == ctx_after(
                    models.subrange(0, i + 1),
                    initial_ctx(),
                ).att_count);
            }
            i = i + 1;
        }
        proof {
            assert(msg_models(self.messages@).subrange(0, self.messages@.len() as int)
                =~= msg_models(self.messages@));
        }
        self.line_list = lines;
        self.attachments = paths;
        self.typing_idx = new_typing;
        self.last_width = width;
        self.last_height = height;
        let l = self.line_list.len();
        if height >= 1 && l >= height {
            self.y_bounds = (l - height, l - 1);
        }
        proof {
            if new_typing is Some {
                if old(self).typing_idx is None {
                    assert(msg_models(self.messages@)[self.messages@.len() - 1]
                        .message_type is Typing);
                    assert(false);
                }
            } else {
                if old(self).typing_idx is Some {
                    assert(msg_models(self.messages@)[self.messages@.len() - 1]
                        == self.messages@[self.messages@.len() - 1]@);
                }
            }
        }
        self.clamp_window();
        self.scroll(false, 0);
    }

    /// The fetched messages, newest first as the gateway sends them,
    /// reversed into layout order (oldest first).
    fn reversed_messages(v: Vec<Message>) -> (r: Vec<Message>)
        ensures
            msg_models(r@) == msg_models(v@).reverse(),
            r@.len() == v@.len(),
    {
        let ghost v0 = v@;
        let mut src = v;
        let mut r: Vec<Message> = Vec::new();
        while src.len() > 0
            invariant
                src@ == v0.subrange(0, src@.len() as int),
                r@.len() + src@.len() == v0.len(),
                forall|k: int| 0 <= k < r@.len() ==> r@[k] == v0[v0.len() - 1 - k],
            decreases src@.len(),
        {
            let ghost s0 = src@;
            let m = match src.pop() {
                Some(m) => m,
                None => {
                    proof {
                        assert(false);
                    }
                    unreached()
                },
            };
            proof {
                assert(s0.last() == v0[s0.len() - 1]);
                assert(src@ =~= v0.subrange(0, src@.len() as int));
            }
            r.push(m);
        }
        proof {
            assert(msg_models(r@) =~= msg_models(v0).reverse());
        }
        r
    }

    /// Takes delivery of a fetch result for this view.  A paginating
    /// fetch prepends the older messages; a reload replaces the loaded
    /// messages outright.  Either way the fetch state returns to idle
    /// and the line list is marked for rebuilding.  With no fetch in
    /// flight, nothing changes.
    pub fn loaded_in_messages(&mut self, fetched: Vec<Message>)
        requires
            old(self).wf(),
            all_normal(msg_models(fetched@)),
        ensures
            final(self).wf(),
            old(self).await_state is Not ==> *final(self) == *old(self),
            old(self).await_state is More ==> {
                &&& msg_models(final(self).messages@) == msg_models(fetched@).reverse()
                    + msg_models(old(self).messages@)
                &&& final(self).selected_msg == old(self).messages.len()
                &&& final(self).typing_idx == old(self).typing_idx
                &&& final(self).await_state is Not
                &&& final(self).last_height == 0
                &&& final(self).line_list@ == old(self).line_list@
                &&& final(self).attachments@ == old(self).attachments@
                &&& final(self).last_width == old(self).last_width
                &&& final(self).underline_char == old(self).underline_char
            },
            old(self).await_state is Replace ==> {
                &&& msg_models(final(self).messages@) == msg_models(fetched@).reverse()
                &&& final(self).selected_msg as int == if fetched@.len() > 0 {
                    fetched@.len() - 1
                } else {
                    0
                }
                &&& final(self).typing_idx is None
                &&& final(self).await_state is Not
                &&& final(self).last_height == 0
                &&& final(self).line_list@ == old(self).line_list@
                &&& final(self).attachments@ == old(self).attachments@
                &&& final(self).last_width == old(self).last_width
                &&& final(self).underline_char == old(self).underline_char
            },
    {
        match self.await_state {
            AwaitState::Not => {},
            AwaitState::More => {
                let old_len = self.messages.len();
                let mut newv = Self::reversed_messages(fetched);
                let ghost rev = msg_models(newv@);
                newv.append(&mut self.messages);
                self.messages = newv;
                self.selected_msg = old_len;
                self.last_height = 0;
                self.await_state = AwaitState::Not;
                proof {
                    assert(msg_models(self.messages@) =~= rev + msg_models(old(self).messages@));
                    let all = msg_models(self.messages@);
                    match self.typing_idx {
                        Some(ti) => {
                            assert(all[all.len() - 1] == msg_models(old(self).messages@)[
                                old(self).messages@.len() - 1]);
                            assert forall|k: int| 0 <= k < all.drop_last().len() implies (
                            #[trigger] all.drop_last()[k].message_type) is Normal by {
                                if k >= rev.len() {
                                    assert(all[k] == msg_models(old(self).messages@).drop_last()[
                                        k - rev.len()]);
                                }
                            }
                        },
                        None => {
                            assert forall|k: int| 0 <= k < all.len() implies (#[trigger] all[
                            k].message_type) is Normal by {
                                if k >= rev.len() {
                                    assert(all[k] == msg_models(old(self).messages@)[k - rev.len()]);
                                }
                            }
                        },
                    }
                }
            },
            AwaitState::Replace => {
                let newv = Self::reversed_messages(fetched);
                let n = newv.len();
                self.messages = newv;
                self.selected_msg = if n > 0 {
                    n - 1
                } else {
                    0
                };
                self.typing_idx = None;
                self.last_height = 0;
                self.await_state = AwaitState::Not;
                proof {
                    let all = msg_models(self.messages@);
                    assert forall|k: int| 0 <= k < all.len() implies (#[trigger] all[
                    k].message_type) is Normal by {
                        assert(all[k] == msg_models(fetched@)[all.len() - 1 - k]);
                    }
                }
            },
        }
    }
    /// Appends one inbound message and extends the rendered lines
    /// incrementally, without a full rebuild: the new lines are
    /// exactly what the layout model assigns to this message in the
    /// context the loaded messages left behind.  A showing typing
    /// indicator is removed first and, for an own message while the
    /// other party still types, re-added afterwards.
    pub fn new_text(&mut self, msg: Message, current_chat: Option<String>)
        requires
            old(self).wf(),
            3 <= old(self).last_width <= 65535,
            msg@.message_type is Normal,
            old(self).attachments@.len() + msg.attachments@.len() <= usize::MAX,
        ensures
            final(self).wf(),
            ({
                let had_typing = old(self).typing_idx is Some;
                let retype = had_typing && msg.is_from_me && current_chat is Some;
                let msgs1 = if had_typing {
                    msg_models(old(self).messages@).drop_last()
                } else {
                    msg_models(old(self).messages@)
                };
                let lines1 = match old(self).typing_idx {
                    Some(ti) => line_models(old(self).line_list@).remove(ti as int),
                    None => line_models(old(self).line_list@),
                };
                let ctx = LayoutCtx {
                    idx: msgs1.len() as int,
                    last_date: last_date_of(msgs1),
                    last_sender: last_sender_of(msgs1),
                    att_count: old(self).attachments@.len() as int,
                };
                let ext = message_lines(msg@, ctx, old(self).last_width as int, old(self).underline_char);
                &&& msg_models(final(self).messages@) == if retype {
                    msgs1.push(msg@).push(
                        crate::models::typing_message_model(
                            match current_chat {
                                Some(c) => c@,
                                None => Seq::empty(),
                            },
                        ),
                    )
                } else {
                    msgs1.push(msg@)
                }
                &&& line_models(final(self).line_list@) == if retype {
                    lines1 + ext + seq![typing_line_model(msgs1.len() as int + 1)]
                } else {
                    lines1 + ext
                }
                &&& (final(self).typing_idx is Some <==> retype)
                &&& (final(self).typing_idx matches Some(t) ==> t as int == lines1.len()
                    + ext.len())
                &&& final(self).selected_msg as int == msg_models(final(self).messages@).len() - 1
            }),
            string_views(final(self).attachments@) == string_views(old(self).attachments@)
                + att_paths(msg@.attachments),
            final(self).await_state == old(self).await_state,
            final(self).last_width == old(self).last_width,
            final(self).last_height == old(self).last_height,
            final(self).underline_char == old(self).underline_char,
    {
        let show_again = self.typing_idx.is_some() && msg.is_from_me;
        self.set_idle();
        let ghost msgs1 = msg_models(self.messages@);
        let ghost lines1 = line_models(self.line_list@);
        let i = self.messages.len();
        let last_date: i64 = if i == 0 {
            0
        } else {
            self.messages[i - 1].date
        };
        let last_sender: String = if i == 0 {
            String::new()
        } else {
            match &self.messages[i - 1].sender {
                Some(s) => s.clone(),
                None => String::new(),
            }
        };
        proof {
            if self.messages@.len() > 0 {
                assert(msg_models(self.messages@)[self.messages@.len() - 1] == self.messages@[
                    self.messages@.len() - 1]@);
            }
            assert(last_date as int == last_date_of(msgs1));
            assert(last_sender@ == last_sender_of(msgs1));
        }
        let w = self.last_width;
        let uch = self.underline_char;
        render_message(
            &mut self.line_list,
            &mut self.attachments,
            &msg,
            i,
            last_date,
            &last_sender,
            w,
            uch,
        );
        let ghost msgs_mid = self.messages@;
        self.messages.push(msg);
        proof {
            lemma_msg_models_push(msgs_mid, msg);
            assert(msg_models(self.messages@) =~= msgs1.push(msg@));
            assert(msg_models(self.messages@).drop_last() =~= msgs1);
            assert forall|k: int| 0 <= k < msg_models(self.messages@).len() implies (
            #[trigger] msg_models(self.messages@)[k].message_type) is Normal by {
                if k < msgs1.len() {
                    assert(msg_models(self.messages@)[k] == msgs1[k]);
                }
            }
        }
        if show_again {
            if let Some(chat) = current_chat {
                let t = Message::typing(chat.as_str());
                self.set_typing(t);
            }
        }
        let n = self.messages.len();
        proof {
            assert(n >= 1);
        }
        self.selected_msg = n - 1;
        proof {
            assert(self.y_bounds.0 <= self.y_bounds.1);
            assert(self.line_list@.len() == line_models(self.line_list@).len());
            assert(self.y_bounds.1 <= self.line_list@.len() + 1);
            assert(self.wf());
        }
        self.scroll(false, 0);
    }

    /// Empties the viewport, as opening a fresh composition does: no
    /// messages, no rendered lines, no attachments, no indicator.
    pub fn clear(&mut self)
        ensures
            final(self).wf(),
            final(self).messages@.len() == 0,
            final(self).line_list@.len() == 0,
            final(self).attachments@.len() == 0,
            final(self).selected_msg == 0,
            final(self).typing_idx is None,
            final(self).y_bounds == (0usize, 0usize),
            final(self).await_state == old(self).await_state,
            final(self).last_width == old(self).last_width,
            final(self).last_height == old(self).last_height,
            final(self).underline_char == old(self).underline_char,
    {
        self.messages = Vec::new();
        self.line_list = Vec::new();
        self.attachments = Vec::new();
        self.selected_msg = 0;
        self.typing_idx = None;
        self.y_bounds = (0, 0);
    }

    /// The guid of the selected message, when the selection is in
    /// range.
    pub fn current_guid(&self) -> (r: Option<String>)
        ensures
            self.selected_msg < self.messages@.len() ==> (r matches Some(g) && g@
                == self.messages@[self.selected_msg as int]@.guid),
            self.selected_msg >= self.messages@.len() ==> r is None,
    {
        if self.selected_msg < self.messages.len() {
            Some(self.messages[self.selected_msg].guid.clone())
        } else {
            None
        }
    }

    /// The body text of the selected message, when the selection is
    /// in range.
    pub fn current_text(&self) -> (r: Option<String>)
        ensures
            self.selected_msg < self.messages@.len() ==> (r matches Some(t) && t@
                == self.messages@[self.selected_msg as int]@.text),
            self.selected_msg >= self.messages@.len() ==> r is None,
    {
        if self.selected_msg < self.messages.len() {
            Some(self.messages[self.selected_msg].text.clone())
        } else {
            None
        }
    }

    /// The remote path of attachment number `idx`, when there is one.
    pub fn attachment_path(&self, idx: usize) -> (r: Option<String>)
        ensures
            idx < self.attachments@.len() ==> (r matches Some(p) && p@ == self.attachments@[
                idx as int]@),
            idx >= self.attachments@.len() ==> r is None,
    {
        if idx < self.attachments.len() {
            Some(self.attachments[idx].clone())
        } else {
            None
        }
    }
}

} // verus!
