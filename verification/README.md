# protocol

A small service-oriented communication protocol: services find each other
through multicast announcements, call each other's methods and subscribe to
each other's events over TCP.

`src/` is the verified library. It holds the packet formats with their
encoders and decoders, the registries of discovered services and connected
clients, and the decisions of the discovery component, the application
layer and the TCP transport, each stated as a contract and proved with
Verus. Times are milliseconds handed in by the caller; nothing in `src/`
reads a clock, opens a socket or starts a thread.

`app/` runs the library: it binds the sockets, starts the worker threads,
reads the clock, calls the user's handlers and performs what the library
decides.

`tests/` exercises the library on concrete packets and scenarios.
