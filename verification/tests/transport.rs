// End-to-end exercises of generated endpoint names against the real
// operating-system transport: a generated name is a bindable rendezvous
// path, connecting to it behaves as documented, and the byte stream it
// yields is an ordered duplex pipe.

use tokio::io::AsyncReadExt;
use tokio::io::AsyncWriteExt;
use tokio::net::UnixListener;
use tokio::net::UnixStream;

use aubypipe::generate;

#[test]
fn ping_pong_roundtrip() {
    let rt = tokio::runtime::Builder::new_current_thread()
        .enable_all()
        .build()
        .unwrap();
    rt.block_on(async {
        let name = generate();
        let listener = UnixListener::bind(name.as_str()).unwrap();
        let path = name.as_str().to_string();
        let client_task = tokio::spawn(async move {
            let mut c = UnixStream::connect(path.as_str()).await.unwrap();
            c.write_all(b"ping").await.unwrap();
            let mut buf = [0u8; 4];
            c.read_exact(&mut buf).await.unwrap();
            assert_eq!(&buf, b"pong");
        });
        let (mut s, _) = listener.accept().await.unwrap();
        let mut buf = [0u8; 4];
        s.read_exact(&mut buf).await.unwrap();
        assert_eq!(&buf, b"ping");
        s.write_all(b"pong").await.unwrap();
        client_task.await.unwrap();
    });
}

#[test]
fn connect_without_listener_fails_not_found() {
    let rt = tokio::runtime::Builder::new_current_thread()
        .enable_all()
        .build()
        .unwrap();
    rt.block_on(async {
        let name = generate();
        let err = UnixStream::connect(name.as_str()).await.unwrap_err();
        assert_eq!(err.kind(), std::io::ErrorKind::NotFound);
    });
}

#[test]
fn second_connect_after_single_accept_fails() {
    let rt = tokio::runtime::Builder::new_current_thread()
        .enable_all()
        .build()
        .unwrap();
    rt.block_on(async {
        let name = generate();
        let listener = UnixListener::bind(name.as_str()).unwrap();
        let first = UnixStream::connect(name.as_str()).await.unwrap();
        let (server, _) = listener.accept().await.unwrap();
        // the listener is consumed after its single accept
        drop(listener);
        let second = UnixStream::connect(name.as_str()).await;
        assert!(second.is_err());
        drop(first);
        drop(server);
    });
}

#[test]
fn shutdown_twice_is_consistent() {
    let rt = tokio::runtime::Builder::new_current_thread()
        .enable_all()
        .build()
        .unwrap();
    rt.block_on(async {
        let name = generate();
        let listener = UnixListener::bind(name.as_str()).unwrap();
        let mut client = UnixStream::connect(name.as_str()).await.unwrap();
        let (server, _) = listener.accept().await.unwrap();
        client.shutdown().await.unwrap();
        match client.shutdown().await {
            Ok(()) => {}
            Err(e) => assert_eq!(e.kind(), std::io::ErrorKind::NotConnected),
        }
        drop(server);
    });
}

#[test]
fn large_transfer_by_write_loop() {
    let rt = tokio::runtime::Builder::new_current_thread()
        .enable_all()
        .build()
        .unwrap();
    rt.block_on(async {
        let name = generate();
        let listener = UnixListener::bind(name.as_str()).unwrap();
        let reader = tokio::spawn(async move {
            let (mut server, _) = listener.accept().await.unwrap();
            let mut data = Vec::new();
            server.read_to_end(&mut data).await.unwrap();
            data
        });
        let mut client = UnixStream::connect(name.as_str()).await.unwrap();
        let mut payload: Vec<u8> = Vec::with_capacity(1_000_000);
        for i in 0..1_000_000u32 {
            payload.push((i % 251) as u8);
        }
        let mut written: usize = 0;
        while written < payload.len() {
            let n = client.write(&payload[written..]).await.unwrap();
            assert!(n > 0);
            written += n;
        }
        assert_eq!(written, payload.len());
        client.shutdown().await.unwrap();
        drop(client);
        let got = reader.await.unwrap();
        assert_eq!(got, payload);
    });
}
