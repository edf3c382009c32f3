# ethernet_ip

Streams that are the data of an EtherNet/IP assembly. One assembly instance's
data attribute is one Stream: reading it is a `Get_Attribute_Single`, writing
it a `Set_Attribute_Single`, each one explicit message in a `SendRRData` on a
registered session.

- `src/` is the library, verified with Verus.
  - `wire`, `text`: little-endian integers; the numbers and URIs in texts.
  - `encapsulation`: the packet, its header, and the items of a `SendRRData`.
  - `cip`: the explicit request and reply, and the path in a request.
  - `adapter`: one session's worth of adapter, holding assemblies.
  - `scanner`: the other side of the session.
  - `transport`: targets, and whole receives and sends.
  - `session`: what holds between the two sides, as proved laws.
  - `error`: what can be wrong, and the words for it.
- `tests/` runs the library.
- `app/` puts the sessions on TCP sockets.

The origin URI names the adapter and the assembly:
`enip://host:44818/assembly/100`. A target is `enip://host:44818/100` for
another instance, or `host:port` for the configured one.
