//! The command/compose input field: a cursor measured as an offset
//! from the right end, a display window over the text, the recent
//! command history, and the parser for typed attachment paths with
//! quoting and backslash escapes.

use vstd::prelude::*;
use crate::layout::string_views;
use crate::text::{chars_to_string, str_to_chars};
use vstd::string::StrSliceExecFns;

verus! {

/// Characters that end a path unless escaped or quoted.
pub open spec fn is_path_break(c: char) -> bool {
    c == ' ' || c == '\t' || c == '"' || c == '\\'
}

/// The attachment paths typed so far: paths are separated by
/// unescaped whitespace, quotes group a path with spaces, and a
/// backslash lets any following character into the path.
pub open spec fn typed_atts(
    s: Seq<char>,
    in_quotes: bool,
    escaped: bool,
    cur: Seq<char>,
    acc: Seq<Seq<char>>,
) -> Seq<Seq<char>>
    decreases s.len(),
{
    if s.len() == 0 {
        if cur.len() > 0 {
            acc.push(cur)
        } else {
            acc
        }
    } else {
        let c = s[0];
        if !is_path_break(c) || escaped || (in_quotes && c != '"') {
            typed_atts(s.drop_first(), in_quotes, false, cur.push(c), acc)
        } else if c == '\\' {
            typed_atts(s.drop_first(), in_quotes, true, cur, acc)
        } else if c == '"' {
            if in_quotes {
                typed_atts(s.drop_first(), false, false, Seq::empty(), acc.push(cur))
            } else {
                typed_atts(s.drop_first(), true, false, cur, acc)
            }
        } else {
            if cur.len() > 0 {
                typed_atts(s.drop_first(), in_quotes, false, Seq::empty(), acc.push(cur))
            } else {
                typed_atts(s.drop_first(), in_quotes, false, cur, acc)
            }
        }
    }
}

/// The display window after a cursor move, for a field of `w` columns
/// holding `len` characters with the cursor `ro` characters from the
/// right end.
pub open spec fn input_window(len: int, ro: int, y0: int, y1: int, w: int) -> (int, int) {
    let at = len - ro;
    if at > w - 2 && y1 <= at - 1 {
        let b1 = at;
        let b0 = if b1 - (w - 3) >= 0 {
            b1 - (w - 3)
        } else {
            0
        };
        (b0, b1)
    } else if at <= y0 {
        let b0 = at;
        let b1 = if b0 + (w - 3) <= len {
            b0 + (w - 3)
        } else {
            len
        };
        (b0, b1)
    } else if w - 2 > len {
        (0, len)
    } else {
        (y0, y1)
    }
}

pub struct InputView {
    /// The text typed into this field.
    pub input: String,
    /// The window of `input` that is drawn: character positions
    /// (start, end).
    pub bounds: (usize, usize),
    /// The cursor's offset from the right end of the input.
    pub right_offset: usize,
    /// Last width this field was drawn at.
    pub last_width: usize,
    /// Recent commands, most recent first.
    pub last_commands: Vec<String>,
    /// How far up the command history the user has tabbed.
    pub tabbed_up: Option<usize>,
    /// A title overriding the default one, if any.
    pub custom_title: Option<String>,
}

impl InputView {
    pub open spec fn wf(&self) -> bool {
        &&& self.right_offset <= self.input@.len()
        &&& self.bounds.0 <= self.bounds.1
        &&& self.bounds.1 <= self.input@.len()
        &&& self.tabbed_up matches Some(t) ==> (t as int) < self.last_commands@.len()
    }

    /// Pulls the display window back inside the text after it shrank
    /// (the drawn slice is unchanged: the drawer never reads past the
    /// text anyway).
    fn clamp_bounds(&mut self)
        ensures
            final(self).bounds.1 as int == crate::msgs_view::min2(
                old(self).bounds.1 as int,
                old(self).input@.len() as int,
            ),
            final(self).bounds.0 as int == crate::msgs_view::min2(
                old(self).bounds.0 as int,
                final(self).bounds.1 as int,
            ),
            *final(self) == (InputView { bounds: final(self).bounds, ..*old(self) }),
    {
        let len = self.input.as_str().unicode_len();
        let b1 = if self.bounds.1 > len {
            len
        } else {
            self.bounds.1
        };
        let b0 = if self.bounds.0 > b1 {
            b1
        } else {
            self.bounds.0
        };
        self.bounds = (b0, b1);
    }

    pub fn new() -> (r: InputView)
        ensures
            r.wf(),
            r.input@.len() == 0,
            r.bounds == (0usize, 0usize),
            r.right_offset == 0,
            r.last_width == 0,
            r.last_commands@.len() == 0,
            r.tabbed_up is None,
            r.custom_title is None,
    {
        InputView {
            input: String::new(),
            bounds: (0, 0),
            right_offset: 0,
            last_width: 0,
            last_commands: Vec::new(),
            tabbed_up: None,
            custom_title: None,
        }
    }

    /// Moves the cursor `distance` characters (right decreases the
    /// offset from the right end) and slides the display window so
    /// the cursor stays visible.  A field too narrow to display
    /// anything leaves the window alone.
    pub fn scroll(&mut self, right: bool, distance: usize)
        requires
            old(self).wf(),
        ensures
            final(self).wf(),
            final(self).input@ == old(self).input@,
            final(self).last_width == old(self).last_width,
            final(self).last_commands@ == old(self).last_commands@,
            final(self).tabbed_up == old(self).tabbed_up,
            final(self).custom_title == old(self).custom_title,
            final(self).right_offset as int == if right {
                if old(self).right_offset >= distance {
                    old(self).right_offset - distance
                } else {
                    0
                }
            } else {
                crate::msgs_view::min2(
                    old(self).input@.len() as int,
                    old(self).right_offset + distance,
                )
            },
            old(self).last_width >= 3 ==> {
                let y = input_window(
                    old(self).input@.len() as int,
                    final(self).right_offset as int,
                    old(self).bounds.0 as int,
                    old(self).bounds.1 as int,
                    old(self).last_width as int,
                );
                final(self).bounds.0 as int == y.0 && final(self).bounds.1 as int == y.1
            },
            old(self).last_width < 3 ==> final(self).bounds == old(self).bounds,
    {
        let len = self.input.as_str().unicode_len();
        if right {
            self.right_offset = if self.right_offset >= distance {
                self.right_offset - distance
            } else {
                0
            };
        } else {
            self.right_offset = if self.right_offset >= len || len - self.right_offset < distance {
                len
            } else {
                self.right_offset + distance
            };
        }
        if self.last_width >= 3 {
            let at = len - self.right_offset;
            let w = self.last_width;
            if at > w - 2 && self.bounds.1 <= at - 1 {
                let b1 = at;
                let b0 = if b1 >= w - 3 {
                    b1 - (w - 3)
                } else {
                    0
                };
                self.bounds = (b0, b1);
            } else if at <= self.bounds.0 {
                let b0 = at;
                let b1 = if len - b0 >= w - 3 {
                    b0 + (w - 3)
                } else {
                    len
                };
                self.bounds = (b0, b1);
            } else if w - 2 > len {
                self.bounds = (0, len);
            }
        }
    }

    /// Inserts one character at the cursor.
    pub fn append_char(&mut self, ch: char)
        requires
            old(self).wf(),
        ensures
            final(self).wf(),
            final(self).input@ == old(self).input@.insert(
                old(self).input@.len() - old(self).right_offset,
                ch,
            ),
            final(self).right_offset == old(self).right_offset,
            final(self).last_width == old(self).last_width,
            final(self).last_commands@ == old(self).last_commands@,
            final(self).tabbed_up == old(self).tabbed_up,
            final(self).custom_title == old(self).custom_title,
            old(self).last_width >= 3 ==> {
                let y = input_window(
                    final(self).input@.len() as int,
                    old(self).right_offset as int,
                    old(self).bounds.0 as int,
                    old(self).bounds.1 as int,
                    old(self).last_width as int,
                );
                final(self).bounds.0 as int == y.0 && final(self).bounds.1 as int == y.1
            },
            old(self).last_width < 3 ==> final(self).bounds == old(self).bounds,
    {
        let mut chars = str_to_chars(self.input.as_str());
        let pos = chars.len() - self.right_offset;
        chars.insert(pos, ch);
        self.input = chars_to_string(&chars);
        self.scroll(true, 0);
    }

    /// Clears the field.
    pub fn handle_escape(&mut self)
        requires
            old(self).wf(),
        ensures
            final(self).wf(),
            final(self).input@.len() == 0,
            final(self).right_offset == 0,
            final(self).last_width == old(self).last_width,
            final(self).last_commands@ == old(self).last_commands@,
            final(self).tabbed_up == old(self).tabbed_up,
            final(self).custom_title == old(self).custom_title,
    {
        self.input = String::new();
        self.right_offset = 0;
        self.clamp_bounds();
        self.scroll(false, 0);
    }

    /// Deletes the character before the cursor, if there is one.
    pub fn handle_backspace(&mut self)
        requires
            old(self).wf(),
        ensures
            final(self).wf(),
            old(self).input@.len() > old(self).right_offset ==> final(self).input@ == old(
                self,
            ).input@.remove(old(self).input@.len() - old(self).right_offset - 1),
            old(self).input@.len() <= old(self).right_offset ==> final(self).input@ == old(
                self,
            ).input@,
            final(self).right_offset == old(self).right_offset,
            final(self).last_commands@ == old(self).last_commands@,
            final(self).tabbed_up == old(self).tabbed_up,
            final(self).last_width == old(self).last_width,
            final(self).custom_title == old(self).custom_title,
    {
        let mut chars = str_to_chars(self.input.as_str());
        if chars.len() > self.right_offset {
            let pos = chars.len() - self.right_offset - 1;
            chars.remove(pos);
            self.input = chars_to_string(&chars);
        }
        self.clamp_bounds();
        self.scroll(false, 0);
    }

    /// Handles the tab key: typing a file-send command asks for path
    /// completion (returns true; completion itself reads the file
    /// system and stays outside), anything else gets a literal tab.
    pub fn handle_tab(&mut self) -> (completion: bool)
        requires
            old(self).wf(),
        ensures
            final(self).wf(),
            ({
                let s = old(self).input@;
                let wants = s.len() > 2 && s[0] == ':' && (s[1] == 'f' || s[1] == 'F') && s[2]
                    == ' ';
                &&& completion == wants
                &&& wants ==> *final(self) == *old(self)
                &&& !wants ==> *final(self) == (InputView {
                    input: final(self).input,
                    ..*old(self)
                }) && final(self).input@ == s.push('\t')
            }),
    {
        let chars = str_to_chars(self.input.as_str());
        if chars.len() > 2 && chars[0] == ':' && (chars[1] == 'f' || chars[1] == 'F') && chars[2]
            == ' ' {
            true
        } else {
            let mut chars2 = chars;
            chars2.push('\t');
            self.input = chars_to_string(&chars2);
            false
        }
    }

    /// Parses the typed attachment paths out of `input`, honoring
    /// quotes and backslash escapes.
    pub fn get_typed_attachments(&self, input: String) -> (r: Vec<String>)
        ensures
            string_views(r@) == typed_atts(
                input@,
                false,
                false,
                Seq::empty(),
                Seq::empty(),
            ),
    {
        let chars = str_to_chars(input.as_str());
        proof {
            assert(chars@.subrange(0, chars@.len() as int) =~= chars@);
        }
        let mut files: Vec<String> = Vec::new();
        let mut in_quotes = false;
        let mut escaped = false;
        let mut cur: Vec<char> = Vec::new();
        proof {
            assert(string_views(files@) =~= Seq::<Seq<char>>::empty());
        }
        let mut i: usize = 0;
        while i < chars.len()
            invariant
                0 <= i <= chars@.len(),
                typed_atts(input@, false, false, Seq::empty(), Seq::empty()) == typed_atts(
                    chars@.subrange(i as int, chars@.len() as int),
                    in_quotes,
                    escaped,
                    cur@,
                    string_views(files@),
                ),
                chars@ == input@,
            decreases chars@.len() - i,
        {
            let ghost rest = chars@.subrange(i as int, chars@.len() as int);
            proof {
                assert(rest[0] == chars@[i as int]);
                assert(rest.drop_first() =~= chars@.subrange(i + 1, chars@.len() as int));
            }
            let c = chars[i];
            let is_break = c == ' ' || c == '\t' || c == '"' || c == '\\';
            if !is_break || escaped || (in_quotes && c != '"') {
                cur.push(c);
                escaped = false;
            } else if c == '\\' {
                escaped = true;
            } else if c == '"' {
                if in_quotes {
                    let ghost files0 = files@;
                    let done = chars_to_string(&cur);
                    files.push(done);
                    cur = Vec::new();
                    proof {
                        crate::layout::lemma_string_views_push(files0, done);
                        assert(string_views(files@) =~= string_views(files0).push(done@));
                    }
                }
                in_quotes = !in_quotes;
            } else {
                if cur.len() > 0 {
                    let ghost files0 = files@;
                    let done = chars_to_string(&cur);
                    files.push(done);
                    cur = Vec::new();
                    proof {
                        crate::layout::lemma_string_views_push(files0, done);
                        assert(string_views(files@) =~= string_views(files0).push(done@));
                    }
                }
            }
            i = i + 1;
        }
        proof {
            assert(chars@.subrange(chars@.len() as int, chars@.len() as int) =~= Seq::<
                char,
            >::empty());
        }
        if cur.len() > 0 {
            let ghost files0 = files@;
            let done = chars_to_string(&cur);
            files.push(done);
            proof {
                crate::layout::lemma_string_views_push(files0, done);
                assert(string_views(files@) =~= string_views(files0).push(done@));
            }
        }
        files
    }

    /// Remembers an executed command at the front of the history.
    pub fn push_command(&mut self, cmd: String)
        requires
            old(self).wf(),
        ensures
            final(self).wf(),
            final(self).last_commands@ == old(self).last_commands@.insert(0, cmd),
            final(self).input@ == old(self).input@,
            final(self).bounds == old(self).bounds,
            final(self).right_offset == old(self).right_offset,
            final(self).last_width == old(self).last_width,
            final(self).tabbed_up == old(self).tabbed_up,
            final(self).custom_title == old(self).custom_title,
    {
        self.last_commands.insert(0, cmd);
    }

    /// Tabs up (older) or down (more recent) through the command
    /// history, replacing the field's text with the recalled command.
    pub fn change_command(&mut self, up: bool)
        requires
            old(self).wf(),
        ensures
            final(self).wf(),
            final(self).last_commands@ == old(self).last_commands@,
            final(self).bounds.1 as int == crate::msgs_view::min2(
                old(self).bounds.1 as int,
                final(self).input@.len() as int,
            ),
            final(self).bounds.0 as int == crate::msgs_view::min2(
                old(self).bounds.0 as int,
                final(self).bounds.1 as int,
            ),
            final(self).right_offset as int == crate::msgs_view::min2(
                old(self).right_offset as int,
                final(self).input@.len() as int,
            ),
            final(self).last_width == old(self).last_width,
            final(self).custom_title == old(self).custom_title,
            up ==> match old(self).tabbed_up {
                None => if old(self).last_commands@.len() > 0 {
                    final(self).tabbed_up == Some(0usize) && final(self).input@ == old(
                        self,
                    ).last_commands@[0]@
                } else {
                    final(self).tabbed_up == old(self).tabbed_up && final(self).input@ == old(
                        self,
                    ).input@
                },
                Some(tu) => if old(self).last_commands@.len() > tu + 1 {
                    final(self).tabbed_up == Some((tu + 1) as usize) && final(self).input@ == old(
                        self,
                    ).last_commands@[tu as int]@
                } else {
                    final(self).tabbed_up == old(self).tabbed_up && final(self).input@ == old(
                        self,
                    ).input@
                },
            },
            !up ==> match old(self).tabbed_up {
                None => final(self).tabbed_up == old(self).tabbed_up && final(self).input@ == old(
                    self,
                ).input@,
                Some(tab) => if tab == 0 {
                    final(self).tabbed_up is None && final(self).input@.len() == 0
                } else {
                    final(self).tabbed_up == Some((tab - 1) as usize) && final(self).input@ == old(
                        self,
                    ).last_commands@[tab - 1]@
                },
            },
    {
        if up {
            match self.tabbed_up {
                None => if self.last_commands.len() > 0 {
                    self.tabbed_up = Some(0);
                    self.input = self.last_commands[0].clone();
                },
                Some(tu) => if self.last_commands.len() > tu + 1 {
                    self.tabbed_up = Some(tu + 1);
                    self.input = self.last_commands[tu].clone();
                },
            }
        } else {
            if let Some(tab) = self.tabbed_up {
                if tab == 0 {
                    self.input = String::new();
                    self.tabbed_up = None;
                } else {
                    self.input = self.last_commands[tab - 1].clone();
                    self.tabbed_up = Some(tab - 1);
                }
            }
        }
        // recalling a command may shorten the text under the cursor
        let len = self.input.as_str().unicode_len();
        if self.right_offset > len {
            self.right_offset = len;
        }
        self.clamp_bounds();
    }

    /// Recomputes the display window after the field is drawn at a
    /// new width.
    pub fn update_width(&mut self, width: usize)
        requires
            old(self).wf(),
        ensures
            final(self).wf(),
            final(self).last_width == width,
            final(self).input@ == old(self).input@,
            final(self).right_offset == old(self).right_offset,
            final(self).last_commands@ == old(self).last_commands@,
            final(self).tabbed_up == old(self).tabbed_up,
            final(self).custom_title == old(self).custom_title,
            final(self).bounds.1 as int == old(self).input@.len() - old(self).right_offset,
            final(self).bounds.0 as int == if final(self).bounds.1 as int - width - 2 >= 0 {
                final(self).bounds.1 - width - 2
            } else {
                0
            },
    {
        self.last_width = width;
        let len = self.input.as_str().unicode_len();
        let b1 = len - self.right_offset;
        let b0 = if b1 >= width && b1 - width >= 2 {
            b1 - width - 2
        } else {
            0
        };
        self.bounds = (b0, b1);
    }
}

} // verus!
