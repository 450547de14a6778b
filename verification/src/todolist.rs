use crate::listview::{ListEntry, ListState, ListView};
use vstd::prelude::*;
use vstd::string::StringExecFns;

verus! {

/// One line of the checklist.
#[derive(Clone, Debug)]
pub struct Todo {
    pub text: String,
    pub done: bool,
}

/// The checklist with its cursor and register.
pub struct TodoList {
    pub todos: Vec<Todo>,
    pub selected: usize,
    pub register: Option<Todo>,
}

impl Todo {
    /// An open todo with the given text.
    pub fn new(text: &str) -> (todo: Self)
        ensures
            todo.text@ == text@,
            !todo.done,
    {
        Todo { text: text.to_owned(), done: false }
    }
}

impl Default for Todo {
    fn default() -> (todo: Self)
        ensures
            todo.text@ == Seq::<char>::empty(),
            !todo.done,
    {
        Todo { text: String::new(), done: false }
    }
}

impl ListEntry for Todo {
    open spec fn text(&self) -> Seq<char> {
        self.text@
    }

    /// The check mark in brackets (`x` when done, a blank when not), a
    /// blank, and the text.
    open spec fn rendered(&self) -> Seq<char> {
        seq!['[', if self.done { 'x' } else { ' ' }, ']', ' '] + self.text@
    }

    open spec fn is_edit_of(&self, before: &Self, text: Seq<char>) -> bool {
        self.text@ == text && self.done == before.done
    }

    fn duplicate(&self) -> (copy: Self) {
        Todo { text: self.text.clone(), done: self.done }
    }

    fn render(&self) -> (line: String) {
        let mut line = String::new();
        line.push('[');
        line.push(if self.done { 'x' } else { ' ' });
        line.push(']');
        line.push(' ');
        line.append(self.text.as_str());
        line
    }
}

impl TodoList {
    /// The checklist for what was loaded: the loaded entries, or a single
    /// seed entry when nothing was. The cursor starts on the first entry.
    pub fn open_or_create(loaded: Option<Vec<Todo>>) -> (list: Self)
        ensures
            list.selected == 0,
            list.register is None,
            loaded matches Some(todos) ==> list.todos == todos,
            loaded is None ==> {
                &&& list.todos.len() == 1
                &&& list.todos[0].text@ == "This is a list entry"@
                &&& !list.todos[0].done
            },
    {
        let todos = match loaded {
            Some(todos) => todos,
            None => {
                let mut seed = Vec::new();
                seed.push(Todo::new("This is a list entry"));
                seed
            },
        };
        TodoList { todos, selected: 0, register: None }
    }

    /// The index of the selected entry. The list must not be empty.
    pub open spec fn current_index(&self) -> int {
        self.state().current()
    }

    /// The selected entry. The list must not be empty.
    pub fn current(&self) -> (entry: &Todo)
        requires
            self.todos.len() > 0,
        ensures
            *entry == self.todos[self.current_index()],
    {
        let len = self.todos.len();
        let index = if self.selected < len { self.selected } else { len - 1 };
        &self.todos[index]
    }

    /// Flips the check mark of the selected entry. Nothing happens on an
    /// empty list.
    pub fn toggle_current(&mut self)
        ensures
            final(self).selected == old(self).selected,
            final(self).register == old(self).register,
            final(self).todos.len() == old(self).todos.len(),
            forall|i: int|
                0 <= i < old(self).todos.len() && i != old(self).current_index() ==> final(self).todos[i]
                    == old(self).todos[i],
            old(self).todos.len() > 0 ==> {
                let i = old(self).current_index();
                &&& final(self).todos[i].text == old(self).todos[i].text
                &&& final(self).todos[i].done == !old(self).todos[i].done
            },
    {
        let len = self.todos.len();
        if len == 0 {
            return ;
        }
        let index = if self.selected < len { self.selected } else { len - 1 };
        self.todos[index].done = !self.todos[index].done;
    }
}

impl ListView<Todo> for TodoList {
    open spec fn state(&self) -> ListState<Todo> {
        ListState { items: self.todos@, cursor: self.selected as nat, register: self.register }
    }

    /// The checklist keeps its entries in the order they were put in.
    open spec fn settles(before: Seq<Todo>, after: Seq<Todo>) -> bool {
        after == before
    }

    fn selection_pointer(&mut self) -> (pointer: &mut usize) {
        &mut self.selected
    }

    fn list(&mut self) -> (list: &mut Vec<Todo>) {
        &mut self.todos
    }

    fn register(&mut self) -> (register: &mut Option<Todo>) {
        &mut self.register
    }

    fn normal_mode(&mut self) {
        if self.todos.len() > 0 && self.current().text.as_str().is_empty() {
            self.remove_current();
            self.selected = self.selected.saturating_sub(1);
        }
    }

    fn append_to_current(&mut self, chr: char) {
        let len = self.todos.len();
        if len == 0 {
            return ;
        }
        let index = if self.selected < len { self.selected } else { len - 1 };
        self.todos[index].text.push(chr);
    }

    fn backspace(&mut self) {
        let len = self.todos.len();
        if len == 0 {
            return ;
        }
        let index = if self.selected < len { self.selected } else { len - 1 };
        self.todos[index].text.pop();
    }
}

} // verus!
