use minitools::input::Key;
use minitools::llm_chat::{
    chunk_lines, endpoint, model, read_prompt, ChatChunk, Conversation, Message, Prompt, Reply,
};
use minitools::price::{CoinQuotes, PriceError, PriceQuery};
use minitools::todo::{App as TodoApp, Event as TodoEvent};

#[test]
fn default_query_and_url() {
    let q = PriceQuery::new();
    assert_eq!(q.coin_id, "bitcoin");
    assert_eq!(q.currency, "inr");
    assert_eq!(
        q.request_url(),
        "https://api.coingecko.com/api/v3/simple/price?ids=bitcoin&vs_currencies=inr"
    );
}

fn quotes() -> Vec<CoinQuotes> {
    vec![
        CoinQuotes { coin: "ethereum".to_string(), currencies: vec!["usd".to_string()] },
        CoinQuotes {
            coin: "bitcoin".to_string(),
            currencies: vec!["usd".to_string(), "inr".to_string()],
        },
    ]
}

#[test]
fn price_is_found() {
    let q = PriceQuery::new();
    assert!(matches!(q.select_price(&quotes()), Ok((1, 1))));
}

#[test]
fn missing_coin_and_currency() {
    let q = PriceQuery { coin_id: "doge".to_string(), currency: "inr".to_string() };
    match q.select_price(&quotes()) {
        Err(e @ PriceError::CoinMissing(_)) => {
            assert_eq!(e.message(), "Coin 'doge' not found in response ")
        }
        _ => panic!("expected a missing coin"),
    }
    let q = PriceQuery { coin_id: "ethereum".to_string(), currency: "inr".to_string() };
    match q.select_price(&quotes()) {
        Err(e @ PriceError::CurrencyMissing(_)) => {
            assert_eq!(e.message(), "Currency 'inr' not found for coin ")
        }
        _ => panic!("expected a missing currency"),
    }
    assert!(matches!(q.select_price(&Vec::new()), Err(PriceError::CoinMissing(_))));
}

#[test]
fn status_lines() {
    let q = PriceQuery::new();
    assert_eq!(q.status_text(None), "fetching price for bitcoin...");
    assert_eq!(q.status_text(Some("5400000.5")), "Price of bitcoin: 5400000.5 inr");
}

#[test]
fn prompts() {
    assert!(matches!(read_prompt("exit\n"), Prompt::Quit));
    assert!(matches!(read_prompt("  quit "), Prompt::Quit));
    match read_prompt("  hello there \n") {
        Prompt::Say(t) => assert_eq!(t, "hello there"),
        Prompt::Quit => panic!("not a quit"),
    }
    match read_prompt("exits") {
        Prompt::Say(t) => assert_eq!(t, "exits"),
        Prompt::Quit => panic!("not a quit"),
    }
}

#[test]
fn model_and_endpoint() {
    assert_eq!(model(), "gemma3:4b");
    assert_eq!(endpoint(), "http://localhost:11434/api/chat");
}

#[test]
fn conversation_history() {
    let mut c = Conversation::new();
    c.push_user("hi".to_string());
    c.push_assistant("hello!".to_string());
    let turns: Vec<(String, String)> =
        c.history.iter().map(|m| (m.role.clone(), m.content.clone())).collect();
    assert_eq!(
        turns,
        vec![
            ("user".to_string(), "hi".to_string()),
            ("assistant".to_string(), "hello!".to_string())
        ]
    );
}

#[test]
fn chunk_lines_skip_blank_lines() {
    let lines = chunk_lines(b"{\"a\":1}\n  \n\r\n{\"b\":2}\r\n");
    assert_eq!(lines, vec!["{\"a\":1}".to_string(), "{\"b\":2}".to_string()]);
    assert!(chunk_lines(b"").is_empty());
    assert!(chunk_lines(b"\n\n").is_empty());
}

#[test]
fn reply_accumulates() {
    let mut r = Reply::new();
    let part = |text: &str, done: Option<bool>| ChatChunk {
        message: Some(Message { role: "assistant".to_string(), content: text.to_string() }),
        done,
    };
    assert!(!r.absorb(&part("Hel", None)));
    assert!(!r.absorb(&part("lo", Some(false))));
    assert!(r.absorb(&ChatChunk { message: None, done: Some(true) }));
    assert!(r.absorb(&part("!", Some(true))));
    assert_eq!(r.text, "Hello!");
}

#[test]
fn todo_quits_on_q_or_end() {
    let mut app = TodoApp::new();
    assert!(app.tasks.is_empty());
    app.handle_event(Some(TodoEvent::Tick));
    app.handle_event(Some(TodoEvent::Key(Key::Char('x'))));
    app.handle_event(Some(TodoEvent::Key(Key::Enter)));
    assert!(!app.should_quit);
    app.handle_event(Some(TodoEvent::Key(Key::Char('q'))));
    assert!(app.should_quit);
    let mut app = TodoApp::new();
    app.handle_event(None);
    assert!(app.should_quit);
}
