//! Tests of the pool's connection lifecycle over real hyper connections: the
//! client side of each connection is handshaken over an in-memory pipe whose
//! other end is served by a hyper echo server, so reuse, stale detection,
//! keying and concurrent access are exercised with the real sending handles
//! and driver tasks in the pool.

use std::sync::atomic::AtomicUsize;
use std::sync::atomic::Ordering;
use std::sync::Arc;
use std::time::Duration;

use http_body_util::BodyExt;
use http_body_util::Full;
use hyper::body::Bytes;
use hyper::body::Incoming;
use hyper::service::service_fn;
use hyper::Request;
use hyper::Response;
use hyper_util::rt::TokioIo;
use tokio::task::JoinHandle;

use http_pool::body::buffer_capacity;
use http_pool::body::RequestPayload;
use http_pool::body::ResponseBuffer;
use http_pool::executor::prepare_request;
use http_pool::headers::convert_response_headers;
use http_pool::headers::Headers;
use http_pool::key::DestKey;
use http_pool::pool::Acquired;
use http_pool::pool::Pool;
use http_pool::pool::Slot;
use http_pool::HttpError;

type ReqBody = Full<Bytes>;

/// Echoes the request's headers and body back in the response.
async fn echo(req: Request<Incoming>) -> Result<Response<ReqBody>, hyper::Error> {
    let headers = req.headers().clone();
    let body = req.into_body().collect().await?.to_bytes();
    let mut resp = Response::new(Full::new(body));
    for (k, v) in headers.iter() {
        if k.as_str() != "content-length" && k.as_str() != "transfer-encoding" {
            resp.headers_mut().insert(k.clone(), v.clone());
        }
    }
    Ok(resp)
}

/// Establishes one connection: an in-memory pipe, an echo server serving its
/// far end, and an HTTP/1.1 handshake on the near end. Counts as one
/// handshake; returns the slot and the server task's handle.
async fn establish(count: &AtomicUsize) -> (Slot<ReqBody>, JoinHandle<()>) {
    count.fetch_add(1, Ordering::SeqCst);
    let (client_io, server_io) = tokio::io::duplex(1 << 16);
    let server = tokio::spawn(async move {
        let _ = hyper::server::conn::http1::Builder::new()
            .serve_connection(TokioIo::new(server_io), service_fn(echo))
            .await;
    });
    let (sender, conn) = hyper::client::conn::http1::handshake(TokioIo::new(client_io))
        .await
        .expect("handshake over the pipe");
    let driver = tokio::spawn(async move {
        let _ = conn.await;
    });
    (Slot::new(sender, driver), server)
}

/// One request through the library's pipeline, the way an embedding host
/// drives it: acquire (establishing when told to), build, send, drain,
/// install the connection back.
async fn do_request(
    pool: &tokio::sync::Mutex<Pool<ReqBody>>,
    count: &AtomicUsize,
    servers: &tokio::sync::Mutex<Vec<JoinHandle<()>>>,
    method: &str,
    url: &str,
    headers: Vec<(String, String)>,
    payload: RequestPayload,
) -> Result<(u16, Headers, Vec<u8>), HttpError> {
    let plan = prepare_request(method, url, &headers, payload)?;
    let mut guard = pool.lock().await;

    let live = match guard.probe(&plan.key) {
        Some(closed) => !closed,
        None => false,
    };
    let mut slot = match guard.acquire(&plan.key, live) {
        Acquired::Reused(s) => s,
        Acquired::Stale | Acquired::Absent => {
            let (slot, server) = establish(count).await;
            servers.lock().await.push(server);
            slot
        }
    };

    // A reused dispatcher may still be finishing the previous exchange; wait
    // until it accepts the next request.
    if let Err(e) = slot.sender.ready().await {
        return Err(HttpError::Send(e.to_string()));
    }

    let method = hyper::Method::from_bytes(method.as_bytes())
        .map_err(|_| HttpError::InvalidMethod)?;
    let mut builder = Request::builder().method(method).uri(url);
    for (k, v) in &plan.headers {
        builder = builder.header(k.as_str(), v.as_str());
    }
    let req = builder
        .body(Full::new(Bytes::from(plan.body)))
        .map_err(|e| HttpError::Send(e.to_string()))?;

    let mut resp = slot
        .sender
        .send_request(req)
        .await
        .map_err(|e| HttpError::Send(e.to_string()))?;

    let status = resp.status().as_u16();
    let mut raw: Vec<(String, Vec<u8>)> = Vec::new();
    for (k, v) in resp.headers().iter() {
        raw.push((k.as_str().to_string(), v.as_bytes().to_vec()));
    }
    let table = convert_response_headers(&raw)?;

    let mut buf = ResponseBuffer::new(buffer_capacity(&table));
    while let Some(next) = resp.frame().await {
        let frame = next.map_err(|e| HttpError::Body(e.to_string()))?;
        if let Some(chunk) = frame.data_ref() {
            buf.append(chunk.as_ref());
        }
    }

    guard.install(plan.key.dup(), slot);
    Ok((status, table, buf.into_bytes()))
}

fn runtime() -> tokio::runtime::Runtime {
    tokio::runtime::Builder::new_multi_thread()
        .worker_threads(2)
        .enable_all()
        .build()
        .expect("runtime")
}

fn key_for(host: &str) -> DestKey {
    DestKey { host: host.to_string(), port: 80 }
}

#[test]
fn sequential_requests_reuse_one_connection() {
    let rt = runtime();
    rt.block_on(async {
        let pool = tokio::sync::Mutex::new(Pool::<ReqBody>::new());
        let servers = tokio::sync::Mutex::new(Vec::new());
        let count = AtomicUsize::new(0);

        for _ in 0..3 {
            let (status, _, body) = do_request(
                &pool, &count, &servers, "GET", "http://srv1/", Vec::new(),
                RequestPayload::Empty,
            )
            .await
            .expect("request");
            assert_eq!(status, 200);
            assert!(body.is_empty());
        }
        // Exactly one handshake for three sequential requests to one
        // destination: the pooled connection was reused.
        assert_eq!(count.load(Ordering::SeqCst), 1);
        assert_eq!(pool.lock().await.len(), 1);
    });
}

#[test]
fn closed_connection_is_replaced_by_one_handshake() {
    let rt = runtime();
    rt.block_on(async {
        let pool = tokio::sync::Mutex::new(Pool::<ReqBody>::new());
        let servers = tokio::sync::Mutex::new(Vec::new());
        let count = AtomicUsize::new(0);
        let key = key_for("srv1");

        let (status, _, _) = do_request(
            &pool, &count, &servers, "GET", "http://srv1/", Vec::new(), RequestPayload::Empty,
        )
        .await
        .expect("first request");
        assert_eq!(status, 200);
        assert_eq!(count.load(Ordering::SeqCst), 1);

        // Force-close the connection from the server side, then wait until
        // the pooled sending handle reports the transport closed.
        servers.lock().await.remove(0).abort();
        let mut closed = false;
        for _ in 0..500 {
            if pool.lock().await.probe(&key) == Some(true) {
                closed = true;
                break;
            }
            tokio::time::sleep(Duration::from_millis(10)).await;
        }
        assert!(closed, "the pooled handle never reported the transport closed");

        // The second request detects the stale slot, evicts it, and performs
        // exactly one new handshake.
        let (status, _, _) = do_request(
            &pool, &count, &servers, "GET", "http://srv1/", Vec::new(), RequestPayload::Empty,
        )
        .await
        .expect("second request");
        assert_eq!(status, 200);
        assert_eq!(count.load(Ordering::SeqCst), 2);
        assert_eq!(pool.lock().await.len(), 1);
    });
}

#[test]
fn distinct_destinations_get_distinct_slots() {
    let rt = runtime();
    rt.block_on(async {
        let pool = tokio::sync::Mutex::new(Pool::<ReqBody>::new());
        let servers = tokio::sync::Mutex::new(Vec::new());
        let count = AtomicUsize::new(0);
        let k1 = key_for("srv1");
        let k2 = key_for("srv2");

        do_request(&pool, &count, &servers, "GET", "http://srv1/", Vec::new(), RequestPayload::Empty)
            .await
            .expect("request to srv1");
        do_request(&pool, &count, &servers, "GET", "http://srv2/", Vec::new(), RequestPayload::Empty)
            .await
            .expect("request to srv2");

        // One slot per key: two destinations, two handshakes, two entries.
        assert_eq!(count.load(Ordering::SeqCst), 2);
        let guard = pool.lock().await;
        assert_eq!(guard.len(), 2);
        assert!(guard.contains_key(&k1));
        assert!(guard.contains_key(&k2));
    });
}

#[test]
fn header_roundtrip_is_lowercased() {
    let rt = runtime();
    rt.block_on(async {
        let pool = tokio::sync::Mutex::new(Pool::<ReqBody>::new());
        let servers = tokio::sync::Mutex::new(Vec::new());
        let count = AtomicUsize::new(0);

        let (status, table, body) = do_request(
            &pool, &count, &servers, "GET", "http://srv1/",
            vec![("X-Test".to_string(), "abc".to_string())],
            RequestPayload::Empty,
        )
        .await
        .expect("request");
        assert_eq!(status, 200);
        assert_eq!(table.get(&"x-test".to_string()), Some("abc".to_string()));
        assert!(body.is_empty());
    });
}

#[test]
fn body_roundtrip_is_exact() {
    let rt = runtime();
    rt.block_on(async {
        let pool = tokio::sync::Mutex::new(Pool::<ReqBody>::new());
        let servers = tokio::sync::Mutex::new(Vec::new());
        let count = AtomicUsize::new(0);

        let (status, _, body) = do_request(
            &pool, &count, &servers, "POST", "http://srv1/", Vec::new(),
            RequestPayload::Bytes(vec![1, 2, 3]),
        )
        .await
        .expect("request");
        assert_eq!(status, 200);
        assert_eq!(body, vec![1, 2, 3]);
    });
}

#[test]
fn concurrent_requests_get_their_own_responses() {
    let rt = runtime();
    rt.block_on(async {
        let pool = Arc::new(tokio::sync::Mutex::new(Pool::<ReqBody>::new()));
        let servers = Arc::new(tokio::sync::Mutex::new(Vec::new()));
        let count = Arc::new(AtomicUsize::new(0));
        let mut tasks = Vec::new();

        for i in 0..50u32 {
            let pool = Arc::clone(&pool);
            let servers = Arc::clone(&servers);
            let count = Arc::clone(&count);
            tasks.push(tokio::spawn(async move {
                let mine = format!("payload-{}", i);
                let (status, table, body) = do_request(
                    &pool, &count, &servers, "POST", "http://srv1/",
                    vec![("X-N".to_string(), format!("{}", i))],
                    RequestPayload::Bytes(mine.clone().into_bytes()),
                )
                .await
                .expect("request");
                assert_eq!(status, 200);
                // Each response carries exactly this request's body and
                // header, never another request's.
                assert_eq!(body, mine.into_bytes());
                assert_eq!(table.get(&"x-n".to_string()), Some(format!("{}", i)));
            }));
        }
        for t in tasks {
            t.await.expect("task");
        }
        // One destination: however the fifty interleaved, they shared the
        // table's single slot and never two at a time.
        assert_eq!(pool.lock().await.len(), 1);
        assert_eq!(count.load(Ordering::SeqCst), 1);
    });
}
