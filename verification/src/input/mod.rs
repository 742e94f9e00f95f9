//! Key bindings: which action a key press stands for, given the screen,
//! the focused pane and what is open. Pure; the actions are applied by
//! `event::actions`.

pub mod keys;

pub use keys::{
    ctrl, dispatch_key, global_key, KeyAction, KeyCode, KeyEvent, KeyModifiers,
    DIFF_SCROLL_HALF, DIFF_SCROLL_H_STEP, DIFF_SCROLL_PAGE,
};
